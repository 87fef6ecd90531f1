//! Character-level text helpers: storage-key derivation, lexicographic
//! ordering of timestamp strings, and the display form of a timestamp.

use vstd::prelude::*;
use vstd::string::StrSliceExecFns;
use vstd::string::StringExecFns;

verus! {

/// Relies on std's `String::push`: appends the given character to the end of
/// the string.
pub assume_specification[ String::push ](s: &mut String, c: char)
    ensures
        final(s)@ == old(s)@.push(c),
;

/// What `str::to_lowercase` returns: the Unicode lowercase equivalent of a
/// character sequence. It is a function of the characters alone, so it can be
/// named; what it maps each character to is left to the outside function.
pub uninterp spec fn lower_of(s: Seq<char>) -> Seq<char>;

/// Relies on std's `str::to_lowercase`: the Unicode lowercase equivalent of
/// the string, which depends on the characters alone; an empty string stays
/// empty.
#[verifier::external_body]
fn lowercase(s: &str) -> (r: String)
    ensures
        r@ == lower_of(s@),
        s@.len() == 0 ==> r@.len() == 0,
{
    s.to_lowercase()
}

/// One character of the space substitution: a space becomes an underscore,
/// anything else is kept.
pub open spec fn subst_char(c: char) -> char {
    if c == ' ' {
        '_'
    } else {
        c
    }
}

/// The title with every space replaced by an underscore.
pub open spec fn subst_spaces(title: Seq<char>) -> Seq<char> {
    title.map_values(|c: char| subst_char(c))
}

/// The storage key derived from a title: spaces replaced by underscores, then
/// the whole lowered. The transform is lossy by design: titles differing only
/// in case or in space/underscore collide.
pub open spec fn key_of(title: Seq<char>) -> Seq<char> {
    lower_of(subst_spaces(title))
}

/// Derives the storage key of a title.
pub fn storage_key(title: &str) -> (r: String)
    ensures
        r@ == key_of(title@),
{
    let n = title.unicode_len();
    let mut replaced = String::new();
    let mut i: usize = 0;
    while i < n
        invariant
            i <= n,
            n == title@.len(),
            replaced@ == title@.subrange(0, i as int).map_values(|c: char| subst_char(c)),
        decreases n - i,
    {
        let c = title.get_char(i);
        let k: char = if c == ' ' {
            '_'
        } else {
            c
        };
        replaced.push(k);
        proof {
            assert(k == subst_char(title@[i as int]));
            assert(title@.subrange(0, (i + 1) as int) =~= title@.subrange(0, i as int).push(
                title@[i as int],
            ));
            assert(title@.subrange(0, (i + 1) as int).map_values(|c: char| subst_char(c))
                =~= title@.subrange(0, i as int).map_values(|c: char| subst_char(c)).push(k));
        }
        i += 1;
    }
    proof {
        assert(title@.subrange(0, n as int) =~= title@);
    }
    lowercase(replaced.as_str())
}

/// Lexicographic order on character sequences by code point, the order in
/// which timestamp strings of one shared format compare chronologically.
pub open spec fn lex_le(a: Seq<char>, b: Seq<char>) -> bool
    decreases a.len(),
{
    if a.len() == 0 {
        true
    } else if b.len() == 0 {
        false
    } else if a[0] != b[0] {
        (a[0] as u32) < (b[0] as u32)
    } else {
        lex_le(a.drop_first(), b.drop_first())
    }
}

pub proof fn lemma_lex_le_refl(a: Seq<char>)
    ensures
        lex_le(a, a),
    decreases a.len(),
{
    if a.len() > 0 {
        lemma_lex_le_refl(a.drop_first());
    }
}

pub proof fn lemma_lex_le_total(a: Seq<char>, b: Seq<char>)
    ensures
        lex_le(a, b) || lex_le(b, a),
    decreases a.len(),
{
    if a.len() > 0 && b.len() > 0 {
        if a[0] == b[0] {
            lemma_lex_le_total(a.drop_first(), b.drop_first());
        } else {
            vstd::utf8::char_u32_cast(a[0], a[0] as u32);
            vstd::utf8::char_u32_cast(b[0], b[0] as u32);
            assert(a[0] as u32 != b[0] as u32);
        }
    }
}

pub proof fn lemma_lex_le_trans(a: Seq<char>, b: Seq<char>, c: Seq<char>)
    requires
        lex_le(a, b),
        lex_le(b, c),
    ensures
        lex_le(a, c),
    decreases a.len(),
{
    if a.len() > 0 && b.len() > 0 && c.len() > 0 && a[0] == b[0] && b[0] == c[0] {
        lemma_lex_le_trans(a.drop_first(), b.drop_first(), c.drop_first());
    }
}

/// Compares two strings in lexicographic code-point order.
pub fn str_le(a: &str, b: &str) -> (r: bool)
    ensures
        r == lex_le(a@, b@),
{
    let alen = a.unicode_len();
    let blen = b.unicode_len();
    let mut i: usize = 0;
    proof {
        assert(a@.skip(0) =~= a@);
        assert(b@.skip(0) =~= b@);
    }
    while i < alen && i < blen
        invariant
            i <= alen,
            i <= blen,
            alen == a@.len(),
            blen == b@.len(),
            lex_le(a@, b@) == lex_le(a@.skip(i as int), b@.skip(i as int)),
        decreases alen - i,
    {
        let ca = a.get_char(i);
        let cb = b.get_char(i);
        if ca != cb {
            return (ca as u32) < (cb as u32);
        }
        proof {
            assert(a@.skip(i as int).drop_first() =~= a@.skip(i + 1));
            assert(b@.skip(i as int).drop_first() =~= b@.skip(i + 1));
        }
        i += 1;
    }
    alen <= blen
}

/// The display form of one timestamp character: the date/time separator is
/// shown as a space.
pub open spec fn display_char(c: char) -> char {
    if c == 'T' {
        ' '
    } else {
        c
    }
}

/// Where the display of a timestamp ends: at the sub-second dot, or at the
/// start of the offset (`+`, `Z`, or — once past the date/time separator,
/// where it can no longer be a date hyphen — `-`).
pub open spec fn display_stop(c: char, in_time: bool) -> bool {
    c == '.' || c == '+' || c == 'Z' || (in_time && c == '-')
}

/// The display form of a timestamp from position `i` on; `in_time` records
/// whether the date/time separator has been passed.
pub open spec fn display_from(s: Seq<char>, i: int, in_time: bool) -> Seq<char>
    decreases s.len() - i,
{
    if i < 0 || i >= s.len() || display_stop(s[i], in_time) {
        Seq::empty()
    } else {
        seq![display_char(s[i])] + display_from(s, i + 1, in_time || s[i] == 'T')
    }
}

/// The display form of a timestamp: second precision, date and time separated
/// by a space, sub-second and offset components stripped.
pub open spec fn display_ts(s: Seq<char>) -> Seq<char> {
    display_from(s, 0, false)
}

fn push_display(s: &str, i: usize, in_time: bool, out: &mut String)
    requires
        i <= s@.len(),
    ensures
        final(out)@ == old(out)@ + display_from(s@, i as int, in_time),
    decreases s@.len() - i,
{
    if i == s.unicode_len() {
        proof {
            assert(old(out)@ + display_from(s@, i as int, in_time) =~= old(out)@);
        }
        return ;
    }
    let c = s.get_char(i);
    if c == '.' || c == '+' || c == 'Z' || (in_time && c == '-') {
        proof {
            assert(old(out)@ + display_from(s@, i as int, in_time) =~= old(out)@);
        }
        return ;
    }
    let d: char = if c == 'T' {
        ' '
    } else {
        c
    };
    out.push(d);
    push_display(s, i + 1, in_time || c == 'T', out);
    proof {
        assert(old(out)@.push(d) + display_from(s@, i + 1, in_time || c == 'T') =~= old(out)@
            + display_from(s@, i as int, in_time));
    }
}

/// Formats a timestamp for display: the date/time separator becomes a space,
/// and the sub-second and offset components are stripped.
pub fn display_timestamp(s: &str) -> (r: String)
    ensures
        r@ == display_ts(s@),
{
    let mut out = String::new();
    push_display(s, 0, false, &mut out);
    proof {
        assert(Seq::<char>::empty() + display_ts(s@) =~= display_ts(s@));
    }
    out
}

/// The file name under which a record is kept: the storage key with the
/// structured-text extension appended.
pub fn file_name(title: &str) -> (r: String)
    ensures
        r@ == key_of(title@) + ".json"@,
{
    let mut out = storage_key(title);
    out.append(".json");
    out
}

} // verus!
