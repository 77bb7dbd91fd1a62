//! The compiler and archiver binaries that the cache stands in for.

use vstd::prelude::*;
use crate::text::{chars_eq, chars_of};

verus! {

/// A binary whose invocations are wrapped.
#[derive(Debug, PartialEq, Eq, Structural, Clone, Copy)]
pub enum WrappedBinary {
    Gcc,
    Gxx,
    Clang,
    Clangxx,
    Ar,
}

/// The standard name of the binary.
pub open spec fn spec_standard_binary_name(b: WrappedBinary) -> Seq<char> {
    match b {
        WrappedBinary::Gcc => seq!['g', 'c', 'c'],
        WrappedBinary::Gxx => seq!['g', '+', '+'],
        WrappedBinary::Clang => seq!['c', 'l', 'a', 'n', 'g'],
        WrappedBinary::Clangxx => seq!['c', 'l', 'a', 'n', 'g', '+', '+'],
        WrappedBinary::Ar => seq!['a', 'r'],
    }
}

/// The binary with the given standard name.
pub open spec fn spec_from_standard_binary_name(name: Seq<char>) -> Option<WrappedBinary> {
    if name == spec_standard_binary_name(WrappedBinary::Gcc) {
        Some(WrappedBinary::Gcc)
    } else if name == spec_standard_binary_name(WrappedBinary::Gxx) {
        Some(WrappedBinary::Gxx)
    } else if name == spec_standard_binary_name(WrappedBinary::Clang) {
        Some(WrappedBinary::Clang)
    } else if name == spec_standard_binary_name(WrappedBinary::Clangxx) {
        Some(WrappedBinary::Clangxx)
    } else if name == spec_standard_binary_name(WrappedBinary::Ar) {
        Some(WrappedBinary::Ar)
    } else {
        None
    }
}

/// The binary takes gcc's arguments.
pub open spec fn spec_is_gcc_compatible(b: WrappedBinary) -> bool {
    !(b is Ar)
}

impl WrappedBinary {
    /// The standard name of the binary.
    pub fn to_standard_binary_name(&self) -> (res: String)
        ensures
            res@ == spec_standard_binary_name(*self),
    {
        let cs: Vec<char> = match self {
            WrappedBinary::Gcc => vec!['g', 'c', 'c'],
            WrappedBinary::Gxx => vec!['g', '+', '+'],
            WrappedBinary::Clang => vec!['c', 'l', 'a', 'n', 'g'],
            WrappedBinary::Clangxx => vec!['c', 'l', 'a', 'n', 'g', '+', '+'],
            WrappedBinary::Ar => vec!['a', 'r'],
        };
        proof {
            assert(cs@ =~= spec_standard_binary_name(*self));
        }
        crate::text::string_of(cs.as_slice())
    }

    /// The binary with the given standard name, if there is one.
    pub fn from_standard_binary_name(binary_name: &str) -> (res: Option<WrappedBinary>)
        ensures
            res == spec_from_standard_binary_name(binary_name@),
    {
        let lit0 = ['g', 'c', 'c'];
        let lit1 = ['g', '+', '+'];
        let lit2 = ['c', 'l', 'a', 'n', 'g'];
        let lit3 = ['c', 'l', 'a', 'n', 'g', '+', '+'];
        let lit4 = ['a', 'r'];
        proof {
            assert(lit0@ == seq!['g', 'c', 'c']);
            assert(lit1@ == seq!['g', '+', '+']);
            assert(lit2@ == seq!['c', 'l', 'a', 'n', 'g']);
            assert(lit3@ == seq!['c', 'l', 'a', 'n', 'g', '+', '+']);
            assert(lit4@ == seq!['a', 'r']);
        }
        let n = chars_of(binary_name);
        let n = n.as_slice();
        proof {
            lemma_binary_literals();
        }
        if chars_eq(n, &lit0) {
            Some(WrappedBinary::Gcc)
        } else if chars_eq(n, &lit1) {
            Some(WrappedBinary::Gxx)
        } else if chars_eq(n, &lit2) {
            Some(WrappedBinary::Clang)
        } else if chars_eq(n, &lit3) {
            Some(WrappedBinary::Clangxx)
        } else if chars_eq(n, &lit4) {
            Some(WrappedBinary::Ar)
        } else {
            None
        }
    }

    /// The binary takes gcc's arguments.
    pub fn is_gcc_compatible(&self) -> (res: bool)
        ensures
            res == spec_is_gcc_compatible(*self),
    {
        match self {
            WrappedBinary::Gcc | WrappedBinary::Gxx | WrappedBinary::Clang | WrappedBinary::Clangxx => true,
            _ => false,
        }
    }

    /// The binary takes `ar`'s arguments.
    pub fn is_ar_compatible(&self) -> (res: bool)
        ensures
            res == (*self is Ar),
    {
        match self {
            WrappedBinary::Ar => true,
            _ => false,
        }
    }
}

proof fn lemma_binary_literals()
    ensures
        seq!['g', 'c', 'c'].len() == 3,
        seq!['g', 'c', 'c'][0] == 'g',
        seq!['g', 'c', 'c'][1] == 'c',
        seq!['g', 'c', 'c'][2] == 'c',
        seq!['g', '+', '+'].len() == 3,
        seq!['g', '+', '+'][0] == 'g',
        seq!['g', '+', '+'][1] == '+',
        seq!['g', '+', '+'][2] == '+',
        seq!['c', 'l', 'a', 'n', 'g'].len() == 5,
        seq!['c', 'l', 'a', 'n', 'g'][0] == 'c',
        seq!['c', 'l', 'a', 'n', 'g'][1] == 'l',
        seq!['c', 'l', 'a', 'n', 'g'][2] == 'a',
        seq!['c', 'l', 'a', 'n', 'g'][3] == 'n',
        seq!['c', 'l', 'a', 'n', 'g'][4] == 'g',
        seq!['c', 'l', 'a', 'n', 'g', '+', '+'].len() == 7,
        seq!['c', 'l', 'a', 'n', 'g', '+', '+'][0] == 'c',
        seq!['c', 'l', 'a', 'n', 'g', '+', '+'][1] == 'l',
        seq!['c', 'l', 'a', 'n', 'g', '+', '+'][2] == 'a',
        seq!['c', 'l', 'a', 'n', 'g', '+', '+'][3] == 'n',
        seq!['c', 'l', 'a', 'n', 'g', '+', '+'][4] == 'g',
        seq!['c', 'l', 'a', 'n', 'g', '+', '+'][5] == '+',
        seq!['c', 'l', 'a', 'n', 'g', '+', '+'][6] == '+',
        seq!['a', 'r'].len() == 2,
        seq!['a', 'r'][0] == 'a',
        seq!['a', 'r'][1] == 'r',
{
}

/// The binary named by a binary's standard name is that binary.
pub proof fn lemma_binary_name_round_trip(b: WrappedBinary)
    ensures
        spec_from_standard_binary_name(spec_standard_binary_name(b)) == Some(b),
{
    lemma_binary_literals();
}

/// Every binary takes either gcc's or `ar`'s arguments, and not both.
pub proof fn lemma_binary_kinds_partition(b: WrappedBinary)
    ensures
        spec_is_gcc_compatible(b) != (b is Ar),
{
}

} // verus!
