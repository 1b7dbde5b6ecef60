//! Character and string groundwork: filename sanitization, prefix and suffix
//! tests, and joining string sequences with a separator.

use vstd::prelude::*;

verus! {

/// Unicode alphanumericity, as `char::is_alphanumeric` decides it.  The
/// property is a fixed table of the character alone.
pub uninterp spec fn spec_alphanumeric(c: char) -> bool;

/// Relies on std's `char::is_alphanumeric`: a pure Unicode character
/// property, the same for the same character everywhere.
#[verifier::external_body]
fn char_is_alphanumeric(c: char) -> (r: bool)
    ensures
        r == spec_alphanumeric(c),
{
    c.is_alphanumeric()
}

/// Relies on std's `String::push`: appends the given character to the end of
/// the string.
#[verifier::external_body]
pub(crate) fn push_char(s: &mut String, c: char)
    ensures
        final(s)@ == old(s)@.push(c),
{
    s.push(c)
}

/// What one character of a filename becomes: alphanumeric characters and the
/// underscore stay, everything else turns into an underscore.
pub open spec fn spec_sanitize_char(c: char) -> char {
    if spec_alphanumeric(c) || c == '_' {
        c
    } else {
        '_'
    }
}

/// A name made filesystem-safe, character by character.
pub open spec fn spec_sanitize(s: Seq<char>) -> Seq<char> {
    s.map(|i: int, c: char| spec_sanitize_char(c))
}

/// A filesystem-safe base name: every character that is not alphanumeric and
/// not an underscore is replaced by an underscore.
pub fn sanitize_filename(name: &str) -> (r: String)
    ensures
        r@ == spec_sanitize(name@),
{
    let n = name.unicode_len();
    let mut out = String::new();
    let mut i: usize = 0;
    while i < n
        invariant
            i <= n,
            n == name@.len(),
            out@ == spec_sanitize(name@.subrange(0, i as int)),
        decreases n - i,
    {
        let c = name.get_char(i);
        let kept = if char_is_alphanumeric(c) || c == '_' {
            c
        } else {
            '_'
        };
        push_char(&mut out, kept);
        i = i + 1;
        proof {
            assert(name@.subrange(0, i as int) =~= name@.subrange(0, i - 1).push(
                name@[i - 1],
            ));
            assert(spec_sanitize(name@.subrange(0, i as int)) =~= spec_sanitize(
                name@.subrange(0, i - 1),
            ).push(spec_sanitize_char(name@[i - 1])));
        }
    }
    proof {
        assert(name@.subrange(0, n as int) =~= name@);
    }
    out
}

/// `p` is a prefix of `s`.
pub open spec fn spec_starts_with(s: Seq<char>, p: Seq<char>) -> bool {
    p.len() <= s.len() && s.subrange(0, p.len() as int) == p
}

/// `p` is a suffix of `s`.
pub open spec fn spec_ends_with(s: Seq<char>, p: Seq<char>) -> bool {
    p.len() <= s.len() && s.subrange(s.len() - p.len(), s.len() as int) == p
}

/// Whether `s` begins with the characters of `p`.
pub fn str_starts_with(s: &str, p: &str) -> (r: bool)
    ensures
        r == spec_starts_with(s@, p@),
{
    let n = s.unicode_len();
    let m = p.unicode_len();
    if m > n {
        proof {
            assert(!spec_starts_with(s@, p@));
        }
        return false;
    }
    let mut i: usize = 0;
    while i < m
        invariant
            i <= m,
            m <= n,
            n == s@.len(),
            m == p@.len(),
            forall|j: int| 0 <= j < i ==> s@[j] == p@[j],
        decreases m - i,
    {
        if s.get_char(i) != p.get_char(i) {
            proof {
                assert(s@.subrange(0, p@.len() as int)[i as int] != p@[i as int]);
            }
            return false;
        }
        i = i + 1;
    }
    proof {
        assert(s@.subrange(0, p@.len() as int) =~= p@);
    }
    true
}

/// Whether `a` and `b` hold the same characters.
pub fn str_eq(a: &str, b: &str) -> (r: bool)
    ensures
        r == (a@ == b@),
{
    let n = a.unicode_len();
    let m = b.unicode_len();
    if n != m {
        return false;
    }
    let mut i: usize = 0;
    while i < n
        invariant
            i <= n,
            n == a@.len(),
            n == b@.len(),
            forall|j: int| 0 <= j < i ==> a@[j] == b@[j],
        decreases n - i,
    {
        if a.get_char(i) != b.get_char(i) {
            return false;
        }
        i = i + 1;
    }
    proof {
        assert(a@ =~= b@);
    }
    true
}

/// Whether `s` ends with the characters of `p`.
pub fn str_ends_with(s: &str, p: &str) -> (r: bool)
    ensures
        r == spec_ends_with(s@, p@),
{
    let n = s.unicode_len();
    let m = p.unicode_len();
    if m > n {
        proof {
            assert(!spec_ends_with(s@, p@));
        }
        return false;
    }
    let off = n - m;
    let mut i: usize = 0;
    while i < m
        invariant
            i <= m,
            m <= n,
            off == n - m,
            n == s@.len(),
            m == p@.len(),
            forall|j: int| 0 <= j < i ==> s@[off + j] == p@[j],
        decreases m - i,
    {
        if s.get_char(off + i) != p.get_char(i) {
            proof {
                let ghost k = i as int;
                assert(s@.subrange(s@.len() - p@.len(), s@.len() as int)[k] != p@[k]);
            }
            return false;
        }
        i = i + 1;
    }
    proof {
        assert(s@.subrange(s@.len() - p@.len(), s@.len() as int) =~= p@);
    }
    true
}

/// The members of `parts` laid end to end with `sep` between neighbours.
pub open spec fn spec_join(parts: Seq<Seq<char>>, sep: Seq<char>) -> Seq<char>
    decreases parts.len(),
{
    if parts.len() == 0 {
        Seq::<char>::empty()
    } else if parts.len() == 1 {
        parts[0]
    } else {
        parts[0] + sep + spec_join(parts.drop_first(), sep)
    }
}

/// Appending one more part to a join adds one separator and the part.
pub proof fn lemma_join_push(parts: Seq<Seq<char>>, sep: Seq<char>, last: Seq<char>)
    ensures
        spec_join(parts.push(last), sep) == if parts.len() == 0 {
            last
        } else {
            spec_join(parts, sep) + sep + last
        },
    decreases parts.len(),
{
    if parts.len() == 0 {
        assert(parts.push(last)[0] == last);
    } else if parts.len() == 1 {
        assert(parts.push(last).drop_first() =~= seq![last]);
        assert(parts.push(last)[0] == parts[0]);
        assert(spec_join(seq![last], sep) == seq![last][0]);
        assert(spec_join(parts.push(last), sep) == parts[0] + sep + last);
    } else {
        assert(parts.push(last).drop_first() =~= parts.drop_first().push(last));
        lemma_join_push(parts.drop_first(), sep, last);
        assert(spec_join(parts.push(last), sep) == parts[0] + sep + (spec_join(
            parts.drop_first(),
            sep,
        ) + sep + last));
        assert(parts[0] + sep + (spec_join(parts.drop_first(), sep) + sep + last) =~= (
        parts[0] + sep + spec_join(parts.drop_first(), sep)) + sep + last);
    }
}

/// Joins the given strings with `sep` between neighbours.
pub fn join_strings(parts: &Vec<String>, sep: &str) -> (r: String)
    ensures
        r@ == spec_join(parts@.map(|i: int, s: String| s@), sep@),
{
    let ghost views = parts@.map(|i: int, s: String| s@);
    let mut out = String::new();
    let mut i: usize = 0;
    while i < parts.len()
        invariant
            i <= parts.len(),
            views == parts@.map(|i: int, s: String| s@),
            out@ == spec_join(views.subrange(0, i as int), sep@),
        decreases parts.len() - i,
    {
        if i > 0 {
            out.append(sep);
        }
        out.append(parts[i].as_str());
        i = i + 1;
        proof {
            assert(views.subrange(0, i as int) =~= views.subrange(0, i - 1).push(
                views[i - 1],
            ));
            lemma_join_push(views.subrange(0, i - 1), sep@, views[i - 1]);
        }
    }
    proof {
        assert(views.subrange(0, parts@.len() as int) =~= views);
    }
    out
}

} // verus!
