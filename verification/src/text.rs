use vstd::prelude::*;

verus! {

/// The character sequence that `str::to_lowercase` yields for `s`: a function
/// of the characters alone, left uninterpreted because Unicode case folding is
/// not restated here.
pub uninterp spec fn lower_of(s: Seq<char>) -> Seq<char>;

/// The character sequence that `str::trim` yields for `s`: `s` without its
/// leading and trailing whitespace, a function of the characters alone.
pub uninterp spec fn trim_of(s: Seq<char>) -> Seq<char>;

/// Relies on str::to_lowercase: the result depends on the characters alone.
#[verifier::external_body]
pub(crate) fn lowercase(s: &str) -> (r: String)
    ensures
        r@ == lower_of(s@),
{
    s.to_lowercase()
}

/// Relies on str::trim: the result depends on the characters alone.
#[verifier::external_body]
pub(crate) fn trim(s: &str) -> (r: &str)
    ensures
        r@ == trim_of(s@),
{
    s.trim()
}

/// Lexicographic order on character sequences by Unicode code point,
/// locale-independent.
pub open spec fn lex_le(a: Seq<char>, b: Seq<char>) -> bool
    decreases a.len(),
{
    if a.len() == 0 {
        true
    } else if b.len() == 0 {
        false
    } else if (a[0] as u32) < (b[0] as u32) {
        true
    } else if (a[0] as u32) > (b[0] as u32) {
        false
    } else {
        lex_le(a.drop_first(), b.drop_first())
    }
}

pub proof fn lemma_lex_le_refl(a: Seq<char>)
    ensures
        lex_le(a, a),
    decreases a.len(),
{
    if a.len() > 0 {
        lemma_lex_le_refl(a.drop_first());
    }
}

pub proof fn lemma_lex_le_total(a: Seq<char>, b: Seq<char>)
    ensures
        lex_le(a, b) || lex_le(b, a),
    decreases a.len(),
{
    if a.len() > 0 && b.len() > 0 && a[0] as u32 == b[0] as u32 {
        lemma_lex_le_total(a.drop_first(), b.drop_first());
    }
}

pub proof fn lemma_lex_le_trans(a: Seq<char>, b: Seq<char>, c: Seq<char>)
    requires
        lex_le(a, b),
        lex_le(b, c),
    ensures
        lex_le(a, c),
    decreases a.len(),
{
    if a.len() > 0 && b.len() > 0 && c.len() > 0 && a[0] as u32 == b[0] as u32 && b[0] as u32
        == c[0] as u32 {
        lemma_lex_le_trans(a.drop_first(), b.drop_first(), c.drop_first());
    }
}

/// Decides `lex_le` on two strings.
pub fn lex_le_exec(a: &str, b: &str) -> (r: bool)
    ensures
        r == lex_le(a@, b@),
{
    let alen = a.unicode_len();
    let blen = b.unicode_len();
    let mut i: usize = 0;
    proof {
        assert(a@.skip(0) =~= a@);
        assert(b@.skip(0) =~= b@);
    }
    loop
        invariant
            i <= alen,
            i <= blen,
            alen == a@.len(),
            blen == b@.len(),
            lex_le(a@, b@) == lex_le(a@.skip(i as int), b@.skip(i as int)),
        decreases alen - i,
    {
        if i == alen {
            proof {
                assert(a@.skip(i as int).len() == 0);
            }
            return true;
        }
        if i == blen {
            proof {
                assert(b@.skip(i as int).len() == 0);
                assert(a@.skip(i as int).len() > 0);
            }
            return false;
        }
        let ca = a.get_char(i);
        let cb = b.get_char(i);
        proof {
            assert(a@.skip(i as int)[0] == a@[i as int]);
            assert(b@.skip(i as int)[0] == b@[i as int]);
        }
        if (ca as u32) < (cb as u32) {
            return true;
        }
        if (ca as u32) > (cb as u32) {
            return false;
        }
        proof {
            assert(a@.skip(i as int).drop_first() =~= a@.skip(i + 1));
            assert(b@.skip(i as int).drop_first() =~= b@.skip(i + 1));
        }
        i = i + 1;
    }
}

/// `needle` occurs contiguously somewhere in `hay`.
pub open spec fn is_substring(needle: Seq<char>, hay: Seq<char>) -> bool {
    exists|i: int|
        0 <= i <= hay.len() - needle.len() && #[trigger] hay.subrange(i, i + needle.len())
            == needle
}

/// Decides whether `needle` occurs contiguously in `hay`.
pub fn contains_substring(hay: &str, needle: &str) -> (r: bool)
    ensures
        r == is_substring(needle@, hay@),
{
    let hl = hay.unicode_len();
    let nl = needle.unicode_len();
    if nl > hl {
        return false;
    }
    let limit = hl - nl;
    let mut i: usize = 0;
    loop
        invariant
            nl <= hl,
            hl == hay@.len(),
            nl == needle@.len(),
            limit == hl - nl,
            i <= limit,
            forall|k: int|
                0 <= k < i ==> #[trigger] hay@.subrange(k, k + needle@.len()) != needle@,
        ensures
            forall|k: int|
                0 <= k <= limit ==> #[trigger] hay@.subrange(k, k + needle@.len()) != needle@,
        decreases limit - i,
    {
        let mut j: usize = 0;
        let mut matched = true;
        while j < nl
            invariant
                nl <= hl,
                hl == hay@.len(),
                nl == needle@.len(),
                i <= hl - nl,
                j <= nl,
                i + nl <= hl,
                matched ==> forall|k: int| 0 <= k < j ==> hay@[i + k] == needle@[k],
                !matched ==> hay@.subrange(i as int, i + needle@.len()) != needle@,
            decreases nl - j,
        {
            if matched {
                let hc = hay.get_char(i + j);
                let nc = needle.get_char(j);
                if hc != nc {
                    proof {
                        assert(hay@.subrange(i as int, i + needle@.len())[j as int] == hay@[
                            i + j]);
                    }
                    matched = false;
                }
            }
            j = j + 1;
        }
        if matched {
            proof {
                assert(hay@.subrange(i as int, i + needle@.len()) =~= needle@);
            }
            return true;
        }
        if i == limit {
            break;
        }
        i = i + 1;
    }
    proof {
        assert(forall|k: int|
            0 <= k <= hay@.len() - needle@.len() ==> #[trigger] hay@.subrange(k, k
                + needle@.len()) != needle@);
    }
    false
}

/// Decides whether two strings hold the same characters.
pub fn str_eq(a: &str, b: &str) -> (r: bool)
    ensures
        r == (a@ == b@),
{
    let alen = a.unicode_len();
    let blen = b.unicode_len();
    if alen != blen {
        return false;
    }
    let mut i: usize = 0;
    while i < alen
        invariant
            i <= alen,
            alen == a@.len(),
            alen == b@.len(),
            forall|k: int| 0 <= k < i ==> a@[k] == b@[k],
        decreases alen - i,
    {
        if a.get_char(i) != b.get_char(i) {
            return false;
        }
        i = i + 1;
    }
    proof {
        assert(a@ =~= b@);
    }
    true
}

} // verus!
