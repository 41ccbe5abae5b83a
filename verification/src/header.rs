//! The header names the conditional GET machinery consults.
//!
//! Each name is provided twice: a spec-level byte sequence and an
//! executable constructor proved to produce it. Lookup elsewhere is
//! case-insensitive, so the canonical lowercase spelling is used here.

use vstd::prelude::*;

verus! {

/// `if-modified-since`
pub open spec fn if_modified_since_spec() -> Seq<u8> {
    seq![105u8, 102u8, 45u8, 109u8, 111u8, 100u8, 105u8, 102u8, 105u8, 101u8, 100u8, 45u8, 115u8, 105u8, 110u8, 99u8, 101u8]
}

/// `if-modified-since`
pub fn if_modified_since() -> (v: Vec<u8>)
    ensures
        v@ == if_modified_since_spec(),
{
    let mut v: Vec<u8> = Vec::new();
    v.push(105); v.push(102); v.push(45); v.push(109); v.push(111); v.push(100); v.push(105); v.push(102); v.push(105); v.push(101); v.push(100); v.push(45); v.push(115); v.push(105); v.push(110); v.push(99); v.push(101);
    proof {
        assert(v@ =~= if_modified_since_spec());
    }
    v
}

/// `if-none-match`
pub open spec fn if_none_match_spec() -> Seq<u8> {
    seq![105u8, 102u8, 45u8, 110u8, 111u8, 110u8, 101u8, 45u8, 109u8, 97u8, 116u8, 99u8, 104u8]
}

/// `if-none-match`
pub fn if_none_match() -> (v: Vec<u8>)
    ensures
        v@ == if_none_match_spec(),
{
    let mut v: Vec<u8> = Vec::new();
    v.push(105); v.push(102); v.push(45); v.push(110); v.push(111); v.push(110); v.push(101); v.push(45); v.push(109); v.push(97); v.push(116); v.push(99); v.push(104);
    proof {
        assert(v@ =~= if_none_match_spec());
    }
    v
}

/// `etag`
pub open spec fn etag_spec() -> Seq<u8> {
    seq![101u8, 116u8, 97u8, 103u8]
}

/// `etag`
pub fn etag() -> (v: Vec<u8>)
    ensures
        v@ == etag_spec(),
{
    let mut v: Vec<u8> = Vec::new();
    v.push(101); v.push(116); v.push(97); v.push(103);
    proof {
        assert(v@ =~= etag_spec());
    }
    v
}

/// `last-modified`
pub open spec fn last_modified_spec() -> Seq<u8> {
    seq![108u8, 97u8, 115u8, 116u8, 45u8, 109u8, 111u8, 100u8, 105u8, 102u8, 105u8, 101u8, 100u8]
}

/// `last-modified`
pub fn last_modified() -> (v: Vec<u8>)
    ensures
        v@ == last_modified_spec(),
{
    let mut v: Vec<u8> = Vec::new();
    v.push(108); v.push(97); v.push(115); v.push(116); v.push(45); v.push(109); v.push(111); v.push(100); v.push(105); v.push(102); v.push(105); v.push(101); v.push(100);
    proof {
        assert(v@ =~= last_modified_spec());
    }
    v
}

/// `content-type`
pub open spec fn content_type_spec() -> Seq<u8> {
    seq![99u8, 111u8, 110u8, 116u8, 101u8, 110u8, 116u8, 45u8, 116u8, 121u8, 112u8, 101u8]
}

/// `content-type`
pub fn content_type() -> (v: Vec<u8>)
    ensures
        v@ == content_type_spec(),
{
    let mut v: Vec<u8> = Vec::new();
    v.push(99); v.push(111); v.push(110); v.push(116); v.push(101); v.push(110); v.push(116); v.push(45); v.push(116); v.push(121); v.push(112); v.push(101);
    proof {
        assert(v@ =~= content_type_spec());
    }
    v
}

/// `content-length`
pub open spec fn content_length_spec() -> Seq<u8> {
    seq![99u8, 111u8, 110u8, 116u8, 101u8, 110u8, 116u8, 45u8, 108u8, 101u8, 110u8, 103u8, 116u8, 104u8]
}

/// `content-length`
pub fn content_length() -> (v: Vec<u8>)
    ensures
        v@ == content_length_spec(),
{
    let mut v: Vec<u8> = Vec::new();
    v.push(99); v.push(111); v.push(110); v.push(116); v.push(101); v.push(110); v.push(116); v.push(45); v.push(108); v.push(101); v.push(110); v.push(103); v.push(116); v.push(104);
    proof {
        assert(v@ =~= content_length_spec());
    }
    v
}

} // verus!
