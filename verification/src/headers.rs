//! An ordered multimap from case-insensitive header names to byte-string
//! values.
//!
//! A header may occur any number of times; comparisons work on the
//! concatenation of all its values, joined with no separator, in map
//! order. That joining rule is deliberate and must not be replaced by
//! comma-joining.

use vstd::prelude::*;

verus! {

pub open spec fn ascii_lower(b: u8) -> u8 {
    if 65 <= b <= 90 { (b + 32) as u8 } else { b }
}

pub open spec fn lower_bytes(s: Seq<u8>) -> Seq<u8> {
    s.map(|i: int, b: u8| ascii_lower(b))
}

/// Header names are equal up to ASCII case.
pub open spec fn header_name_eq(a: Seq<u8>, b: Seq<u8>) -> bool {
    lower_bytes(a) == lower_bytes(b)
}

/// An ordered list of `(name, value)` pairs.
pub struct HeaderMap {
    entries: Vec<(Vec<u8>, Vec<u8>)>,
}

impl View for HeaderMap {
    type V = Seq<(Seq<u8>, Seq<u8>)>;

    closed spec fn view(&self) -> Seq<(Seq<u8>, Seq<u8>)> {
        self.entries@.map(|i: int, e: (Vec<u8>, Vec<u8>)| (e.0@, e.1@))
    }
}

/// All values under `name`, joined in order with no separator.
pub open spec fn concat_header_values(hs: Seq<(Seq<u8>, Seq<u8>)>, name: Seq<u8>) -> Seq<u8>
    decreases hs.len()
{
    if hs.len() == 0 {
        Seq::empty()
    } else {
        (if header_name_eq(hs[0].0, name) { hs[0].1 } else { Seq::empty() })
            + concat_header_values(hs.skip(1), name)
    }
}

/// The entries whose name is not `name`, in order.
pub open spec fn remove_header(hs: Seq<(Seq<u8>, Seq<u8>)>, name: Seq<u8>) -> Seq<(Seq<u8>, Seq<u8>)>
    decreases hs.len()
{
    if hs.len() == 0 {
        Seq::empty()
    } else {
        (if header_name_eq(hs[0].0, name) { Seq::empty() } else { seq![hs[0]] })
            + remove_header(hs.skip(1), name)
    }
}

pub open spec fn has_header(hs: Seq<(Seq<u8>, Seq<u8>)>, name: Seq<u8>) -> bool {
    exists|k: int| 0 <= k < hs.len() && header_name_eq(#[trigger] hs[k].0, name)
}

fn names_match(a: &Vec<u8>, b: &Vec<u8>) -> (r: bool)
    ensures
        r == header_name_eq(a@, b@),
{
    if a.len() != b.len() {
        assert(lower_bytes(a@).len() != lower_bytes(b@).len());
        return false;
    }
    let n = a.len();
    let mut i: usize = 0;
    while i < n
        invariant
            n == a.len() == b.len(),
            i <= n,
            forall|j: int| 0 <= j < i ==> ascii_lower(a@[j]) == ascii_lower(b@[j]),
        decreases n - i,
    {
        let x = a[i];
        let y = b[i];
        let xl = if 65 <= x && x <= 90 { x + 32 } else { x };
        let yl = if 65 <= y && y <= 90 { y + 32 } else { y };
        if xl != yl {
            assert(lower_bytes(a@)[i as int] != lower_bytes(b@)[i as int]);
            return false;
        }
        i = i + 1;
    }
    proof {
        assert(lower_bytes(a@) =~= lower_bytes(b@));
    }
    true
}

fn extend_bytes(dst: &mut Vec<u8>, src: &Vec<u8>)
    ensures
        final(dst)@ == old(dst)@ + src@,
{
    let n = src.len();
    let mut j: usize = 0;
    while j < n
        invariant
            n == src.len(),
            j <= n,
            dst@ == old(dst)@ + src@.take(j as int),
        decreases n - j,
    {
        dst.push(src[j]);
        j = j + 1;
        proof {
            assert(dst@ =~= old(dst)@ + src@.take(j as int));
        }
    }
    proof {
        assert(src@.take(n as int) =~= src@);
    }
}

impl HeaderMap {
    pub fn new() -> (r: HeaderMap)
        ensures
            r@ == Seq::<(Seq<u8>, Seq<u8>)>::empty(),
    {
        let r = HeaderMap { entries: Vec::new() };
        proof {
            assert(r@ =~= Seq::<(Seq<u8>, Seq<u8>)>::empty());
        }
        r
    }

    /// Add one more occurrence of `name`, after every existing entry.
    pub fn append(&mut self, name: Vec<u8>, value: Vec<u8>)
        ensures
            final(self)@ == old(self)@ + seq![(name@, value@)],
    {
        let ghost nv = (name@, value@);
        self.entries.push((name, value));
        proof {
            assert(self@ =~= old(self)@ + seq![nv]);
        }
    }

    pub fn len(&self) -> (r: usize)
        ensures
            r == self@.len(),
    {
        self.entries.len()
    }

    /// Borrow the entry at `i`.
    pub fn entry_at(&self, i: usize) -> (r: (&Vec<u8>, &Vec<u8>))
        requires
            i < self@.len(),
        ensures
            r.0@ == self@[i as int].0,
            r.1@ == self@[i as int].1,
    {
        let e = &self.entries[i];
        (&e.0, &e.1)
    }

    /// Whether some entry bears `name`, up to ASCII case.
    pub fn contains(&self, name: &Vec<u8>) -> (r: bool)
        ensures
            r == has_header(self@, name@),
    {
        let n = self.entries.len();
        let mut i: usize = 0;
        while i < n
            invariant
                n == self.entries.len(),
                i <= n,
                forall|k: int| 0 <= k < i ==> !header_name_eq(#[trigger] self@[k].0, name@),
            decreases n - i,
        {
            let e = &self.entries[i];
            if names_match(&e.0, name) {
                proof {
                    assert(0 <= i < self@.len() && header_name_eq(self@[i as int].0, name@));
                }
                return true;
            }
            i = i + 1;
        }
        false
    }

    /// Drop every occurrence of `name`, keeping the other entries in
    /// order.
    pub fn remove(&mut self, name: &Vec<u8>)
        ensures
            final(self)@ == remove_header(old(self)@, name@),
    {
        let n = self.entries.len();
        let mut out: Vec<(Vec<u8>, Vec<u8>)> = Vec::new();
        let mut i: usize = 0;
        proof {
            assert(out@.map(|t: int, e: (Vec<u8>, Vec<u8>)| (e.0@, e.1@))
                =~= Seq::<(Seq<u8>, Seq<u8>)>::empty());
            assert(self@.skip(0) =~= self@);
        }
        while i < n
            invariant
                n == self.entries.len(),
                i <= n,
                remove_header(self@, name@)
                    == out@.map(|t: int, e: (Vec<u8>, Vec<u8>)| (e.0@, e.1@))
                        + remove_header(self@.skip(i as int), name@),
            decreases n - i,
        {
            proof {
                assert(self@.skip(i as int).skip(1) =~= self@.skip(i as int + 1));
                assert(self@.skip(i as int)[0] == self@[i as int]);
            }
            let e = &self.entries[i];
            if !names_match(&e.0, name) {
                let item = (clone_bytes(&e.0), clone_bytes(&e.1));
                out.push(item);
                proof {
                    assert(out@.map(|t: int, e: (Vec<u8>, Vec<u8>)| (e.0@, e.1@))
                        =~= out@.take(out@.len() - 1).map(
                            |t: int, e: (Vec<u8>, Vec<u8>)| (e.0@, e.1@),
                        ) + seq![self@[i as int]]);
                }
            }
            i = i + 1;
        }
        proof {
            assert(remove_header(self@.skip(n as int), name@)
                =~= Seq::<(Seq<u8>, Seq<u8>)>::empty());
        }
        self.entries = out;
    }
}

fn clone_bytes(v: &Vec<u8>) -> (r: Vec<u8>)
    ensures
        r@ == v@,
{
    let mut r: Vec<u8> = Vec::new();
    extend_bytes(&mut r, v);
    proof {
        assert(Seq::<u8>::empty() + v@ =~= v@);
    }
    r
}

/// All values of `name` in `headers`, joined in order with no separator.
pub fn get_and_concat_header(headers: &HeaderMap, name: &Vec<u8>) -> (r: Vec<u8>)
    ensures
        r@ == concat_header_values(headers@, name@),
{
    let n = headers.len();
    let mut acc: Vec<u8> = Vec::new();
    let mut i: usize = 0;
    proof {
        assert(headers@.skip(0) =~= headers@);
        assert(Seq::<u8>::empty() + concat_header_values(headers@, name@)
            =~= concat_header_values(headers@, name@));
    }
    while i < n
        invariant
            n == headers@.len(),
            i <= n,
            concat_header_values(headers@, name@)
                == acc@ + concat_header_values(headers@.skip(i as int), name@),
        decreases n - i,
    {
        proof {
            assert(headers@.skip(i as int).skip(1) =~= headers@.skip(i as int + 1));
            assert(headers@.skip(i as int)[0] == headers@[i as int]);
        }
        let (ename, evalue) = headers.entry_at(i);
        if names_match(ename, name) {
            extend_bytes(&mut acc, evalue);
        }
        i = i + 1;
    }
    proof {
        assert(concat_header_values(headers@.skip(n as int), name@) =~= Seq::<u8>::empty());
        assert(acc@ + Seq::<u8>::empty() =~= acc@);
    }
    acc
}

pub open spec fn utf8_cont(b: u8) -> bool {
    128 <= b <= 191
}

/// Validity of a byte string as UTF-8, by the shortest-form rules.
pub open spec fn is_utf8(s: Seq<u8>) -> bool
    decreases s.len()
{
    if s.len() == 0 {
        true
    } else {
        let b0 = s[0];
        if b0 < 128 {
            is_utf8(s.skip(1))
        } else if 194 <= b0 <= 223 {
            s.len() >= 2 && utf8_cont(s[1]) && is_utf8(s.skip(2))
        } else if b0 == 224 {
            s.len() >= 3 && 160 <= s[1] <= 191 && utf8_cont(s[2]) && is_utf8(s.skip(3))
        } else if 225 <= b0 <= 236 || b0 == 238 || b0 == 239 {
            s.len() >= 3 && utf8_cont(s[1]) && utf8_cont(s[2]) && is_utf8(s.skip(3))
        } else if b0 == 237 {
            s.len() >= 3 && 128 <= s[1] <= 159 && utf8_cont(s[2]) && is_utf8(s.skip(3))
        } else if b0 == 240 {
            s.len() >= 4 && 144 <= s[1] <= 191 && utf8_cont(s[2]) && utf8_cont(s[3])
                && is_utf8(s.skip(4))
        } else if 241 <= b0 <= 243 {
            s.len() >= 4 && utf8_cont(s[1]) && utf8_cont(s[2]) && utf8_cont(s[3])
                && is_utf8(s.skip(4))
        } else if b0 == 244 {
            s.len() >= 4 && 128 <= s[1] <= 143 && utf8_cont(s[2]) && utf8_cont(s[3])
                && is_utf8(s.skip(4))
        } else {
            false
        }
    }
}

fn cont_byte(b: u8) -> (r: bool)
    ensures
        r == utf8_cont(b),
{
    128 <= b && b <= 191
}

/// Whether the bytes are valid UTF-8.
pub fn utf8_check(v: &Vec<u8>) -> (r: bool)
    ensures
        r == is_utf8(v@),
{
    let n = v.len();
    let mut i: usize = 0;
    proof {
        assert(v@.skip(0) =~= v@);
    }
    while i < n
        invariant
            n == v.len(),
            i <= n,
            is_utf8(v@) == is_utf8(v@.skip(i as int)),
        decreases n - i,
    {
        proof {
            assert(v@.skip(i as int)[0] == v@[i as int]);
            if i + 1 < n {
                assert(v@.skip(i as int)[1] == v@[i as int + 1]);
            }
            if i + 2 < n {
                assert(v@.skip(i as int)[2] == v@[i as int + 2]);
            }
            if i + 3 < n {
                assert(v@.skip(i as int)[3] == v@[i as int + 3]);
            }
        }
        let b0 = v[i];
        if b0 < 128 {
            proof {
                assert(v@.skip(i as int).skip(1) =~= v@.skip(i as int + 1));
            }
            i = i + 1;
        } else if 194 <= b0 && b0 <= 223 {
            if !(n - i > 1 && cont_byte(v[i + 1])) {
                return false;
            }
            proof {
                assert(v@.skip(i as int).skip(2) =~= v@.skip(i as int + 2));
            }
            i = i + 2;
        } else if b0 == 224 {
            if !(n - i > 2 && 160 <= v[i + 1] && v[i + 1] <= 191 && cont_byte(v[i + 2])) {
                return false;
            }
            proof {
                assert(v@.skip(i as int).skip(3) =~= v@.skip(i as int + 3));
            }
            i = i + 3;
        } else if (225 <= b0 && b0 <= 236) || b0 == 238 || b0 == 239 {
            if !(n - i > 2 && cont_byte(v[i + 1]) && cont_byte(v[i + 2])) {
                return false;
            }
            proof {
                assert(v@.skip(i as int).skip(3) =~= v@.skip(i as int + 3));
            }
            i = i + 3;
        } else if b0 == 237 {
            if !(n - i > 2 && 128 <= v[i + 1] && v[i + 1] <= 159 && cont_byte(v[i + 2])) {
                return false;
            }
            proof {
                assert(v@.skip(i as int).skip(3) =~= v@.skip(i as int + 3));
            }
            i = i + 3;
        } else if b0 == 240 {
            if !(n - i > 3 && 144 <= v[i + 1] && v[i + 1] <= 191 && cont_byte(v[i + 2])
                && cont_byte(v[i + 3])) {
                return false;
            }
            proof {
                assert(v@.skip(i as int).skip(4) =~= v@.skip(i as int + 4));
            }
            i = i + 4;
        } else if 241 <= b0 && b0 <= 243 {
            if !(n - i > 3 && cont_byte(v[i + 1]) && cont_byte(v[i + 2]) && cont_byte(v[i + 3])) {
                return false;
            }
            proof {
                assert(v@.skip(i as int).skip(4) =~= v@.skip(i as int + 4));
            }
            i = i + 4;
        } else if b0 == 244 {
            if !(n - i > 3 && 128 <= v[i + 1] && v[i + 1] <= 143 && cont_byte(v[i + 2])
                && cont_byte(v[i + 3])) {
                return false;
            }
            proof {
                assert(v@.skip(i as int).skip(4) =~= v@.skip(i as int + 4));
            }
            i = i + 4;
        } else {
            return false;
        }
    }
    proof {
        assert(v@.skip(n as int) =~= Seq::<u8>::empty());
    }
    true
}

} // verus!
