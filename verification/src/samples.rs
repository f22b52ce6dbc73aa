//! Fixed sample data: a table of numbers and a table of sentences.

use vstd::prelude::*;
use vstd::string::StringExecFns;

verus! {

/// The numbers of the sample table, in order.
pub open spec fn value_table() -> Seq<u64> {
    seq![
        0x1337_5EED,
        0xCAFE_BABE,
        0x1337_5EED,
        0xCAFE_BABE,
        0x1337_5EED,
        0xCAFE_BABE,
        0x1337_5EED,
        0xCAFE_BABE,
        0x1337_5EED,
        0xCAFE_BABE,
        0b0_1010_0101,
        0b1_0101_0101,
        0b0_1010_1010,
        0b1_0101_0101,
        0b0_1010_1010,
        0b1_0101_0101,
        0x2345_6789,
        0x0001_389B_CDEF,
        0x2345_6789,
        0x0001_389B_CDEF,
        0x2345_6789,
        0x0001_389B_CDEF,
        0x2345_6789,
        0x0001_389B_CDEF,
        0x2345_6789,
        0x0001_389B_CDEF,
        0b0_0101_0101,
        0b1_0101_0101,
    ]
}

/// The sample table of numbers.
pub fn values() -> (table: Vec<u64>)
    ensures
        table@ == value_table(),
{
    vec![
        0x1337_5EED,
        0xCAFE_BABE,
        0x1337_5EED,
        0xCAFE_BABE,
        0x1337_5EED,
        0xCAFE_BABE,
        0x1337_5EED,
        0xCAFE_BABE,
        0x1337_5EED,
        0xCAFE_BABE,
        0b0_1010_0101,
        0b1_0101_0101,
        0b0_1010_1010,
        0b1_0101_0101,
        0b0_1010_1010,
        0b1_0101_0101,
        0x2345_6789,
        0x0001_389B_CDEF,
        0x2345_6789,
        0x0001_389B_CDEF,
        0x2345_6789,
        0x0001_389B_CDEF,
        0x2345_6789,
        0x0001_389B_CDEF,
        0x2345_6789,
        0x0001_389B_CDEF,
        0b0_0101_0101,
        0b1_0101_0101,
    ]
}

/// The sentences of the sample table, in order.
pub open spec fn text_table() -> Seq<Seq<char>> {
    seq![
        "Hello world!"@,
        "The quick brown fox jumps over the lazy dog."@,
        "A cat in the hat."@,
        "My name is Inigo Montoya."@,
        "What the hell are you doing?"@,
        "TODO: Add more text"@,
        "DONE: Add more text"@,
        "Word for word."@,
        "A multilayer perceptron is the most basic form of a neural network. The way it works is that it takes a set of vectors as input and produces a set of outputs by using matrix multiplication and vector addition, ie it does a lot of weighted sums."@,
        ""@,
        "Eagles are the animals with the best visual acuity. The part of their retina covered with photoreceptors, the fovea is the most \n        densily covered of the animal kingdom, reaching the minimal physical size for detecting visible light"@,
    ]
}

/// The sample table of sentences.
pub fn text() -> (table: Vec<String>)
    ensures
        table.deep_view() == text_table(),
{
    let table = vec![
        String::from_str("Hello world!"),
        String::from_str("The quick brown fox jumps over the lazy dog."),
        String::from_str("A cat in the hat."),
        String::from_str("My name is Inigo Montoya."),
        String::from_str("What the hell are you doing?"),
        String::from_str("TODO: Add more text"),
        String::from_str("DONE: Add more text"),
        String::from_str("Word for word."),
        String::from_str("A multilayer perceptron is the most basic form of a neural network. The way it works is that it takes a set of vectors as input and produces a set of outputs by using matrix multiplication and vector addition, ie it does a lot of weighted sums."),
        String::from_str(""),
        String::from_str("Eagles are the animals with the best visual acuity. The part of their retina covered with photoreceptors, the fovea is the most \n        densily covered of the animal kingdom, reaching the minimal physical size for detecting visible light"),
    ];
    assert(table.deep_view() =~= text_table());
    table
}

} // verus!
