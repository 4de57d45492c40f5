use vstd::prelude::*;

verus! {

/// A content-object identifier: the fixed-size content hash that names the
/// bytes of one file revision. Equality is by value; many tree entries across
/// many commits may carry the same identifier.
pub struct Oid {
    bytes: Vec<u8>,
}

impl View for Oid {
    type V = Seq<u8>;

    closed spec fn view(&self) -> Seq<u8> {
        self.bytes@
    }
}

/// The lower-case hex digit for one value below sixteen.
pub open spec fn hex_digit(n: u8) -> u8
    recommends
        n < 16,
{
    if n < 10 {
        (48 + n) as u8
    } else {
        (87 + n) as u8
    }
}

/// The hex character at position `i` of the hex rendering of `bytes`:
/// even positions show the high half of a byte, odd positions the low half.
pub open spec fn hex_char_at(bytes: Seq<u8>, i: int) -> u8
    recommends
        0 <= i < 2 * bytes.len(),
{
    if i % 2 == 0 {
        hex_digit(bytes[i / 2] / 16)
    } else {
        hex_digit(bytes[i / 2] % 16)
    }
}

/// The first `n` characters of the hex rendering of `bytes`.
pub open spec fn hex_prefix(bytes: Seq<u8>, n: int) -> Seq<u8> {
    Seq::new(n as nat, |i: int| hex_char_at(bytes, i))
}

/// The display label for one content object: a bracketed short form of its
/// identifier, a space, then the path under which it was reached.
pub open spec fn label_spec(oid: Seq<u8>, path: Seq<u8>) -> Seq<u8> {
    seq![91u8] + hex_prefix(oid, 7) + seq![93u8, 32u8] + path
}

impl Oid {
    /// An identifier is well formed when it holds a full-size hash.
    pub open spec fn wf(&self) -> bool {
        self@.len() == 20
    }

    /// Wraps raw hash bytes; refuses any length but the fixed hash size.
    pub fn from_bytes(bytes: Vec<u8>) -> (r: Option<Oid>)
        ensures
            match r {
                Some(o) => o@ == bytes@ && o.wf(),
                None => bytes@.len() != 20,
            },
    {
        if bytes.len() == 20 {
            Some(Oid { bytes })
        } else {
            None
        }
    }

    /// The raw hash bytes.
    pub fn as_bytes(&self) -> (r: &Vec<u8>)
        ensures
            r@ == self@,
    {
        &self.bytes
    }

    /// The first `n` hex characters of this identifier, lower case.
    pub fn short_hex(&self, n: usize) -> (r: Vec<u8>)
        requires
            self.wf(),
            n <= 40,
        ensures
            r@ == hex_prefix(self@, n as int),
    {
        let mut out: Vec<u8> = Vec::new();
        let mut i: usize = 0;
        while i < n
            invariant
                i <= n,
                n <= 40,
                self.wf(),
                out@.len() == i,
                forall|k: int| 0 <= k < i ==> out@[k] == hex_char_at(self@, k),
            decreases n - i,
        {
            let b = self.bytes[i / 2];
            let nib = if i % 2 == 0 {
                b / 16
            } else {
                b % 16
            };
            let c = if nib < 10 {
                48 + nib
            } else {
                87 + nib
            };
            out.push(c);
            i = i + 1;
        }
        proof {
            assert(out@ =~= hex_prefix(self@, n as int));
        }
        out
    }
}

impl Clone for Oid {
    fn clone(&self) -> (r: Self)
        ensures
            r@ == self@,
    {
        Oid { bytes: copy_bytes(&self.bytes) }
    }
}

/// A by-value copy of a byte vector.
pub fn copy_bytes(v: &Vec<u8>) -> (r: Vec<u8>)
    ensures
        r@ == v@,
{
    let mut out: Vec<u8> = Vec::new();
    let mut i: usize = 0;
    while i < v.len()
        invariant
            i <= v@.len(),
            out@ == v@.take(i as int),
        decreases v@.len() - i,
    {
        out.push(v[i]);
        proof {
            assert(out@ =~= v@.take(i as int + 1));
        }
        i = i + 1;
    }
    proof {
        assert(v@.take(v@.len() as int) =~= v@);
    }
    out
}

/// Builds the display label for a content object: `[` + seven hex characters
/// of its identifier + `] ` + the current path.
pub fn label_for(oid: &Oid, path: &Vec<u8>) -> (r: Vec<u8>)
    requires
        oid.wf(),
    ensures
        r@ == label_spec(oid@, path@),
{
    let mut out: Vec<u8> = Vec::new();
    out.push(91);
    let hex = oid.short_hex(7);
    let mut i: usize = 0;
    while i < hex.len()
        invariant
            i <= hex@.len(),
            out@ == seq![91u8] + hex@.take(i as int),
        decreases hex@.len() - i,
    {
        out.push(hex[i]);
        proof {
            assert(out@ =~= seq![91u8] + hex@.take(i as int + 1));
        }
        i = i + 1;
    }
    proof {
        assert(hex@.take(hex@.len() as int) =~= hex@);
    }
    out.push(93);
    out.push(32);
    let mut j: usize = 0;
    while j < path.len()
        invariant
            j <= path@.len(),
            out@ == seq![91u8] + hex@ + seq![93u8, 32u8] + path@.take(j as int),
        decreases path@.len() - j,
    {
        out.push(path[j]);
        proof {
            assert(out@ =~= seq![91u8] + hex@ + seq![93u8, 32u8] + path@.take(j as int + 1));
        }
        j = j + 1;
    }
    proof {
        assert(path@.take(path@.len() as int) =~= path@);
        assert(out@ =~= label_spec(oid@, path@));
    }
    out
}

} // verus!
