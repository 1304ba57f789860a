//! URL construction for one numbered segment, and the path of its
//! destination file in the local segment store.

use vstd::prelude::*;
use crate::digits::{dec_rep, dec_string};

verus! {

/// A run of `k` zero characters.
pub open spec fn zeros(k: nat) -> Seq<char> {
    Seq::new(k, |i: int| '0')
}

/// The decimal representation of `n`, left-padded with `'0'` to at
/// least `width` characters.  A representation already `width` or more
/// characters wide is kept whole, never truncated.
pub open spec fn padded_dec(n: nat, width: nat) -> Seq<char> {
    if dec_rep(n).len() >= width {
        dec_rep(n)
    } else {
        zeros((width - dec_rep(n).len()) as nat) + dec_rep(n)
    }
}

/// Padding reaches at least `width` characters and never truncates:
/// the full decimal representation of `n` stands unchanged at the end
/// of the padded form.
pub proof fn lemma_padded_dec_no_truncate(n: nat, width: nat)
    ensures
        padded_dec(n, width).len() >= width,
        padded_dec(n, width).len() >= dec_rep(n).len(),
        padded_dec(n, width).subrange(
            padded_dec(n, width).len() - dec_rep(n).len(),
            padded_dec(n, width).len() as int,
        ) == dec_rep(n),
{
    if dec_rep(n).len() >= width {
        assert(padded_dec(n, width).subrange(
            padded_dec(n, width).len() - dec_rep(n).len(),
            padded_dec(n, width).len() as int,
        ) =~= dec_rep(n));
    } else {
        assert(padded_dec(n, width).subrange(
            padded_dec(n, width).len() - dec_rep(n).len(),
            padded_dec(n, width).len() as int,
        ) =~= dec_rep(n));
    }
}

/// What the URL builder guarantees of its output: the built string is
/// at least `width` digits longer than prefix and suffix together, and
/// the full decimal representation of the index stands unchanged in
/// it, right before the suffix — padded, never truncated.
pub proof fn lemma_make_url_pads(prefix: Seq<char>, n: nat, suffix: Seq<char>, width: nat)
    ensures
        (prefix + padded_dec(n, width) + suffix).len() >= prefix.len() + width + suffix.len(),
        (prefix + padded_dec(n, width) + suffix).subrange(
            prefix.len() + padded_dec(n, width).len() - dec_rep(n).len(),
            (prefix.len() + padded_dec(n, width).len()) as int,
        ) == dec_rep(n),
{
    lemma_padded_dec_no_truncate(n, width);
    assert((prefix + padded_dec(n, width) + suffix).subrange(
        prefix.len() + padded_dec(n, width).len() - dec_rep(n).len(),
        (prefix.len() + padded_dec(n, width).len()) as int,
    ) =~= padded_dec(n, width).subrange(
        padded_dec(n, width).len() - dec_rep(n).len(),
        padded_dec(n, width).len() as int,
    ));
}

/// The fetch URL for one segment: prefix, then the index padded to at
/// least `num_length` digits, then the suffix.
pub fn make_url(prefix: &str, num: u32, url_suffix: &str, num_length: usize) -> (r: String)
    ensures
        r@ == prefix@ + padded_dec(num as nat, num_length as nat) + url_suffix@,
{
    let digits = dec_string(num);
    let dlen = digits.as_str().unicode_len();
    let mut s = String::from_str(prefix);
    let mut i: usize = dlen;
    proof {
        reveal_strlit("0");
        assert(s@ =~= prefix@ + zeros(0));
    }
    while i < num_length
        invariant
            dlen <= i,
            dlen == dec_rep(num as nat).len(),
            i <= num_length || i == dlen,
            s@ == prefix@ + zeros((i - dlen) as nat),
        decreases num_length - i,
    {
        s.append("0");
        proof {
            reveal_strlit("0");
            assert(s@ =~= prefix@ + zeros((i + 1 - dlen) as nat));
        }
        i = i + 1;
    }
    s.append(digits.as_str());
    s.append(url_suffix);
    proof {
        assert(s@ =~= prefix@ + padded_dec(num as nat, num_length as nat) + url_suffix@);
    }
    s
}

/// The destination path of one segment in the local store:
/// `dir`, a slash, the decimal index, and the `.ts` extension.
pub fn segment_path(dir: &str, index: u32) -> (r: String)
    ensures
        r@ == dir@ + "/"@ + dec_rep(index as nat) + ".ts"@,
{
    let mut s = String::from_str(dir);
    s.append("/");
    let digits = dec_string(index);
    s.append(digits.as_str());
    s.append(".ts");
    s
}

} // verus!
