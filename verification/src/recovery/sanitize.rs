//! File name sanitizing for the Windows side: NTFS allows names that Win32
//! cannot open, so reserved names and forbidden characters are replaced
//! before a file is written out.

use vstd::prelude::*;
use vstd::string::StringExecFns;
use crate::recovery::error::RecoveryError;
use crate::text::{chars_of, string_of, push_char, push_decimal, push_str, decimal, lemma_decimal_digits};

verus! {

/// The characters that Win32 refuses in a file name.
pub open spec fn is_forbidden(c: char) -> bool {
    c == '<' || c == '>' || c == ':' || c == '"' || c == '/' || c == '\\' || c == '|' || c == '?' || c == '*'
}

/// The control characters that a file name may not hold: U+0000..U+001F.
pub open spec fn is_control(c: char) -> bool {
    (c as u32) <= 0x1F
}

/// A character as sanitizing leaves it.
pub open spec fn clean_char(c: char) -> char {
    if is_control(c) || is_forbidden(c) { '_' } else { c }
}

/// `s` without its trailing dots and spaces.
pub open spec fn strip_trailing(s: Seq<char>) -> Seq<char>
    decreases s.len(),
{
    if s.len() > 0 && (s.last() == '.' || s.last() == ' ') {
        strip_trailing(s.drop_last())
    } else {
        s
    }
}

/// The part of `s` before its first dot (all of it without a dot).
pub open spec fn base_part(s: Seq<char>) -> Seq<char>
    decreases s.len(),
{
    if s.len() == 0 {
        s
    } else if s[0] == '.' {
        Seq::empty()
    } else {
        seq![s[0]] + base_part(s.subrange(1, s.len() as int))
    }
}

/// ASCII uppercase of one character.
pub open spec fn ascii_upper(c: char) -> char {
    if 'a' <= c && c <= 'z' { ((c as u32) - 32) as char } else { c }
}

/// Whether an uppercased base name is reserved by Windows: `CON`, `PRN`,
/// `AUX`, `NUL`, `COM1`..`COM9` or `LPT1`..`LPT9`.
pub open spec fn is_reserved_base(b: Seq<char>) -> bool {
    b == seq!['C', 'O', 'N'] || b == seq!['P', 'R', 'N'] || b == seq!['A', 'U', 'X'] || b == seq!['N', 'U', 'L']
        || (b.len() == 4 && (b.subrange(0, 3) == seq!['C', 'O', 'M'] || b.subrange(0, 3) == seq!['L', 'P', 'T'])
            && '1' <= b[3] && b[3] <= '9')
}

/// The sanitized name: every control or forbidden character replaced by `_`,
/// trailing dots and spaces removed, and `_` put in front of a reserved base
/// name; `None` when nothing is left.
pub open spec fn sanitized(name: Seq<char>) -> Option<Seq<char>> {
    let s = strip_trailing(name.map_values(|c: char| clean_char(c)));
    if s.len() == 0 {
        None
    } else if is_reserved_base(base_part(s).map_values(|c: char| ascii_upper(c))) {
        Some(seq!['_'] + s)
    } else {
        Some(s)
    }
}

/// A name that stays one directory entry: not empty, without `\` or `/`,
/// and not ending in `.` (so neither `.` nor `..`).
pub open spec fn is_plain_name(s: Seq<char>) -> bool {
    &&& s.len() > 0
    &&& s.last() != '.'
    &&& forall|i: int| 0 <= i < s.len() ==> #[trigger] s[i] != '\\' && s[i] != '/'
}

proof fn lemma_strip_trailing_shape(s: Seq<char>)
    ensures
        strip_trailing(s).len() <= s.len(),
        strip_trailing(s) == s.take(strip_trailing(s).len() as int),
        strip_trailing(s).len() > 0 ==> strip_trailing(s).last() != '.' && strip_trailing(s).last() != ' ',
    decreases s.len(),
{
    if s.len() > 0 && (s.last() == '.' || s.last() == ' ') {
        lemma_strip_trailing_shape(s.drop_last());
        let k = strip_trailing(s.drop_last()).len() as int;
        assert(s.drop_last().take(k) =~= s.take(k));
    } else {
        assert(s.take(s.len() as int) =~= s);
    }
}

/// A sanitized name is a plain name.
pub proof fn lemma_sanitized_plain(name: Seq<char>)
    ensures
        sanitized(name) matches Some(r) ==> is_plain_name(r),
{
    let t = name.map_values(|c: char| clean_char(c));
    lemma_strip_trailing_shape(t);
    let s = strip_trailing(t);
    if s.len() > 0 {
        assert forall|i: int| 0 <= i < s.len() implies #[trigger] s[i] != '\\' && s[i] != '/' by {
            assert(s[i] == t[i]);
            assert(t[i] == clean_char(name[i]));
        }
        let p = seq!['_'] + s;
        assert((seq!['_'] + s).last() == s.last());
        assert forall|i: int| 0 <= i < p.len() implies #[trigger] p[i] != '\\' && p[i] != '/' by {
            if i > 0 {
                assert(p[i] == s[i - 1]);
            }
        }
    }
}

/// Sanitizing replaces by `_` every character that Win32 refuses in a file
/// name (`<` `>` `:` `"` `/` `\` `|` `?` `*`) and every control character
/// U+0000..U+001F, and keeps every other character in its place: the result
/// holds none of those characters, and read from its start (or after a `_`
/// put in front of a reserved name) it is the input so cleaned, cut at some
/// length, which does not end in a dot or a space.
pub proof fn lemma_sanitized_chars(name: Seq<char>)
    ensures
        sanitized(name) matches Some(r) ==> r.len() > 0 && r.last() != '.' && r.last() != ' ',
        sanitized(name) matches Some(r) ==> forall|i: int| 0 <= i < r.len() ==> {
            let c = #[trigger] r[i];
            &&& c != '<' && c != '>' && c != ':' && c != '"' && c != '/'
            &&& c != '\\' && c != '|' && c != '?' && c != '*'
            &&& (c as u32) > 0x1F
        },
        sanitized(name) matches Some(r) ==> {
            ||| r.len() <= name.len() && forall|i: int| 0 <= i < r.len() ==> #[trigger] r[i] == (
                if name[i] == '<' || name[i] == '>' || name[i] == ':' || name[i] == '"' || name[i] == '/'
                    || name[i] == '\\' || name[i] == '|' || name[i] == '?' || name[i] == '*' || (name[i] as u32) <= 0x1F {
                    '_'
                } else {
                    name[i]
                })
            ||| r.len() >= 1 && r[0] == '_' && r.len() - 1 <= name.len() && forall|i: int| #![trigger name[i]] 0 <= i < r.len() - 1
                ==> r[i + 1] == (
                if name[i] == '<' || name[i] == '>' || name[i] == ':' || name[i] == '"' || name[i] == '/'
                    || name[i] == '\\' || name[i] == '|' || name[i] == '?' || name[i] == '*' || (name[i] as u32) <= 0x1F {
                    '_'
                } else {
                    name[i]
                })
        },
{
    let t = name.map_values(|c: char| clean_char(c));
    lemma_strip_trailing_shape(t);
    let s = strip_trailing(t);
    if s.len() > 0 {
        let r = sanitized(name)->Some_0;
        assert forall|i: int| 0 <= i < s.len() implies #[trigger] s[i] == clean_char(name[i]) by {
            assert(s[i] == t[i]);
        }
        if r.len() == s.len() + 1 {
            assert(r.last() == s.last());
            assert forall|i: int| 0 <= i < r.len() implies {
                let c = #[trigger] r[i];
                &&& c != '<' && c != '>' && c != ':' && c != '"' && c != '/'
                &&& c != '\\' && c != '|' && c != '?' && c != '*'
                &&& (c as u32) > 0x1F
            } by {
                if i > 0 {
                    assert(r[i] == s[i - 1]);
                    assert(s[i - 1] == clean_char(name[i - 1]));
                }
            }
            assert forall|i: int| #![trigger name[i]] 0 <= i < r.len() - 1 implies r[i + 1] == clean_char(name[i]) by {
                assert(r[i + 1] == s[i]);
            }
        } else {
            assert forall|i: int| 0 <= i < r.len() implies {
                let c = #[trigger] r[i];
                &&& c != '<' && c != '>' && c != ':' && c != '"' && c != '/'
                &&& c != '\\' && c != '|' && c != '?' && c != '*'
                &&& (c as u32) > 0x1F
            } by {
                assert(s[i] == clean_char(name[i]));
            }
        }
    }
}

/// A name whose last character is not a dot or a space loses nothing to
/// stripping.
proof fn lemma_strip_keeps(s: Seq<char>)
    requires
        s.len() > 0,
        s.last() != '.',
        s.last() != ' ',
    ensures
        strip_trailing(s) == s,
{
}

/// Sanitizing a sanitized name changes nothing: `sanitize_filename` gives back
/// its own results unchanged.
pub proof fn lemma_sanitized_idempotent(name: Seq<char>)
    ensures
        sanitized(name) matches Some(r) ==> sanitized(r) == Some(r),
{
    let t = name.map_values(|c: char| clean_char(c));
    lemma_strip_trailing_shape(t);
    let s = strip_trailing(t);
    if s.len() > 0 {
        let r = sanitized(name)->Some_0;
        assert forall|i: int| 0 <= i < s.len() implies clean_char(#[trigger] s[i]) == s[i] by {
            assert(s[i] == t[i]);
        }
        let rc = r.map_values(|c: char| clean_char(c));
        assert(rc =~= r) by {
            assert forall|i: int| 0 <= i < r.len() implies rc[i] == r[i] by {
                if r.len() == s.len() + 1 {
                    if i > 0 {
                        assert(r[i] == s[i - 1]);
                    }
                } else {
                    assert(r[i] == s[i]);
                }
            }
        }
        if r.len() == s.len() + 1 {
            assert(r.last() == s.last());
        }
        lemma_strip_keeps(r);
        if r.len() == s.len() + 1 {
            assert(r[0] == '_');
            assert(r.subrange(1, r.len() as int) =~= s);
            let b = base_part(r).map_values(|c: char| ascii_upper(c));
            assert(base_part(r) == seq![r[0]] + base_part(r.subrange(1, r.len() as int)));
            assert(b[0] == '_');
            assert(!is_reserved_base(b)) by {
                if b.len() == 4 {
                    assert(b.subrange(0, 3)[0] == '_');
                }
                assert(seq!['C', 'O', 'N'][0] == 'C');
                assert(seq!['P', 'R', 'N'][0] == 'P');
                assert(seq!['A', 'U', 'X'][0] == 'A');
                assert(seq!['N', 'U', 'L'][0] == 'N');
                assert(seq!['C', 'O', 'M'][0] == 'C');
                assert(seq!['L', 'P', 'T'][0] == 'L');
            }
        }
    }
}

/// Sanitizing fails exactly on names made of dots and spaces only (the empty
/// name among them).
pub proof fn lemma_sanitize_fails_iff(name: Seq<char>)
    ensures
        sanitized(name) is None <==> forall|i: int| 0 <= i < name.len() ==> #[trigger] name[i] == '.' || name[i] == ' ',
{
    let t = name.map_values(|c: char| clean_char(c));
    lemma_strip_trailing_shape(t);
    lemma_strip_empty(t);
    assert forall|i: int| 0 <= i < name.len() implies (#[trigger] t[i] == '.' || t[i] == ' ') == (name[i] == '.' || name[i] == ' ') by {
        assert(t[i] == clean_char(name[i]));
    }
    if forall|i: int| 0 <= i < name.len() ==> #[trigger] name[i] == '.' || name[i] == ' ' {
        assert forall|i: int| 0 <= i < t.len() implies #[trigger] t[i] == '.' || t[i] == ' ' by {
            assert(name[i] == '.' || name[i] == ' ');
        }
    } else {
        let j = choose|i: int| 0 <= i < name.len() && !(#[trigger] name[i] == '.' || name[i] == ' ');
        assert(!(t[j] == '.' || t[j] == ' '));
    }
}

/// Stripping leaves nothing exactly when every character is a dot or a space.
proof fn lemma_strip_empty(s: Seq<char>)
    ensures
        strip_trailing(s).len() == 0 <==> forall|i: int| 0 <= i < s.len() ==> #[trigger] s[i] == '.' || s[i] == ' ',
    decreases s.len(),
{
    if s.len() > 0 {
        lemma_strip_empty(s.drop_last());
        if s.last() == '.' || s.last() == ' ' {
            assert forall|i: int| 0 <= i < s.len() - 1 implies #[trigger] s.drop_last()[i] == s[i] by {}
            if !(forall|i: int| 0 <= i < s.len() ==> #[trigger] s[i] == '.' || s[i] == ' ') {
                let j = choose|i: int| 0 <= i < s.len() && !(#[trigger] s[i] == '.' || s[i] == ' ');
                assert(s.drop_last()[j] == s[j]);
            }
        } else {
            assert(!(s[s.len() - 1] == '.' || s[s.len() - 1] == ' '));
        }
    }
}

/// Marking a plain name keeps it plain: the marker goes before the last dot,
/// which is never the last character, or at the end.
pub proof fn lemma_marked_plain(name: Seq<char>, record_index: u64)
    requires
        is_plain_name(name),
    ensures
        is_plain_name(marked_name(name, record_index)),
{
    crate::file::lemma_last_index_of(name, '.');
    lemma_decimal_digits(record_index as nat);
    let d = decimal(record_index as nat);
    let marker = seq![' ', '(', 'd', 'e', 'l', 'e', 't', 'e', 'd', '-', '#'] + d + seq![')'];
    assert forall|i: int| 0 <= i < marker.len() implies #[trigger] marker[i] != '\\' && marker[i] != '/' by {
        if 11 <= i < 11 + d.len() {
            assert(marker[i] == d[i - 11]);
        }
    }
    let m = marked_name(name, record_index);
    match crate::file::last_index_of(name, '.') {
        Some(i) => {
            let a = name.take(i);
            let b = name.subrange(i + 1, name.len() as int);
            assert(i < name.len() - 1);
            assert(m == a + marker + seq!['.'] + b);
            assert(m.last() == name.last());
            assert forall|k: int| 0 <= k < m.len() implies #[trigger] m[k] != '\\' && m[k] != '/' by {
                if k < a.len() {
                    assert(m[k] == name[k]);
                } else if k < a.len() + marker.len() {
                    assert(m[k] == marker[k - a.len()]);
                } else if k == a.len() + marker.len() {
                    assert(m[k] == '.');
                } else {
                    assert(m[k] == name[k - a.len() - marker.len() - 1 + i + 1]);
                }
            }
        },
        None => {
            assert(m == name + marker);
            assert(m.last() == ')');
            assert forall|k: int| 0 <= k < m.len() implies #[trigger] m[k] != '\\' && m[k] != '/' by {
                if k < name.len() {
                    assert(m[k] == name[k]);
                } else {
                    assert(m[k] == marker[k - name.len()]);
                }
            }
        },
    }
}

proof fn lemma_strip_prefix(s: Seq<char>, k: int)
    requires
        0 <= k <= s.len(),
        forall|j: int| k <= j < s.len() ==> s[j] == '.' || s[j] == ' ',
    ensures
        strip_trailing(s) == strip_trailing(s.take(k)),
    decreases s.len() - k,
{
    if k < s.len() {
        assert(s.drop_last().take(k) =~= s.take(k));
        lemma_strip_prefix(s.drop_last(), k);
    } else {
        assert(s.take(k) =~= s);
    }
}

proof fn lemma_base_part_take(s: Seq<char>, k: int)
    requires
        0 <= k <= s.len(),
        forall|j: int| 0 <= j < k ==> s[j] != '.',
        k == s.len() || s[k] == '.',
    ensures
        base_part(s) == s.take(k),
    decreases s.len(),
{
    if s.len() > 0 && k > 0 {
        lemma_base_part_take(s.subrange(1, s.len() as int), k - 1);
        assert(seq![s[0]] + s.subrange(1, s.len() as int).take(k - 1) =~= s.take(k));
    } else if s.len() > 0 {
        assert(s.take(0) =~= Seq::<char>::empty());
    }
}

fn is_control_char(c: char) -> (r: bool)
    ensures
        r == is_control(c),
{
    let u = c as u32;
    u <= 0x1F
}

fn is_forbidden_char(c: char) -> (r: bool)
    ensures
        r == is_forbidden(c),
{
    c == '<' || c == '>' || c == ':' || c == '"' || c == '/' || c == '\\' || c == '|' || c == '?' || c == '*'
}

/// Whether an uppercased base name is `COM1`..`COM9` or `LPT1`..`LPT9`.
fn is_reserved_numbered(b: &Vec<char>) -> (r: bool)
    ensures
        r == (b@.len() == 4 && (b@.subrange(0, 3) == seq!['C', 'O', 'M'] || b@.subrange(0, 3) == seq!['L', 'P', 'T'])
            && '1' <= b@[3] && b@[3] <= '9'),
{
    if b.len() != 4 {
        return false;
    }
    let d = b[3];
    if !('1' <= d && d <= '9') {
        return false;
    }
    let com = b[0] == 'C' && b[1] == 'O' && b[2] == 'M';
    let lpt = b[0] == 'L' && b[1] == 'P' && b[2] == 'T';
    proof {
        assert(com == (b@.subrange(0, 3) =~= seq!['C', 'O', 'M']));
        assert(lpt == (b@.subrange(0, 3) =~= seq!['L', 'P', 'T']));
    }
    com || lpt
}

fn is_word3(b: &Vec<char>, x: char, y: char, z: char) -> (r: bool)
    ensures
        r == (b@ == seq![x, y, z]),
{
    if b.len() == 3 && b[0] == x && b[1] == y && b[2] == z {
        assert(b@ =~= seq![x, y, z]);
        true
    } else {
        false
    }
}

/// Sanitizes one name for Windows: control and forbidden characters
/// (`<>:"/\|?*`) become `_`, trailing dots and spaces go, a reserved base name
/// (`CON`, `PRN`, `AUX`, `NUL`, `COM1`-`COM9`, `LPT1`-`LPT9`, any case, any
/// extension) gets a `_` in front. Other characters, Japanese included, stay.
pub fn sanitize_filename(name: &str) -> (r: Result<String, RecoveryError>)
    ensures
        match sanitized(name@) {
            Some(s) => r matches Ok(t) && t@ == s,
            None => r matches Err(RecoveryError::UnsanitizableFilename { original }) && original@ == name@,
        },
{
    let cs = chars_of(name);
    let n = cs.len();
    let ghost cleaned = name@.map_values(|c: char| clean_char(c));
    let mut v: Vec<char> = Vec::new();
    let mut i: usize = 0;
    while i < n
        invariant
            n == cs@.len(),
            cs@ == name@,
            cleaned == name@.map_values(|c: char| clean_char(c)),
            i <= n,
            v@ == cleaned.take(i as int),
        decreases n - i,
    {
        let c = cs[i];
        let d = if is_control_char(c) || is_forbidden_char(c) { '_' } else { c };
        v.push(d);
        i = i + 1;
        proof {
            assert(v@ =~= cleaned.take(i as int));
        }
    }
    proof {
        assert(cleaned.take(n as int) =~= cleaned);
    }
    let mut k = v.len();
    while k > 0 && (v[k - 1] == '.' || v[k - 1] == ' ')
        invariant
            k <= v@.len(),
            v@ == cleaned,
            forall|j: int| k <= j < v@.len() ==> v@[j] == '.' || v@[j] == ' ',
        decreases k,
    {
        k = k - 1;
    }
    proof {
        lemma_strip_prefix(cleaned, k as int);
        assert(strip_trailing(cleaned.take(k as int)) == cleaned.take(k as int));
    }
    if k == 0 {
        proof {
            reveal_strlit("");
        }
        return Err(RecoveryError::UnsanitizableFilename { original: String::from_str(name) });
    }
    let ghost s = cleaned.take(k as int);
    let mut b: usize = 0;
    while b < k && v[b] != '.'
        invariant
            b <= k <= v@.len(),
            forall|j: int| 0 <= j < b ==> v@[j] != '.',
        decreases k - b,
    {
        b = b + 1;
    }
    proof {
        lemma_base_part_take(s, b as int);
    }
    let mut upper: Vec<char> = Vec::new();
    let mut j: usize = 0;
    while j < b
        invariant
            b <= k <= v@.len(),
            j <= b,
            s == v@.take(k as int),
            upper@ == s.take(j as int).map_values(|c: char| ascii_upper(c)),
        decreases b - j,
    {
        let c = v[j];
        let u = if 'a' <= c && c <= 'z' { ((c as u8) - 32) as char } else { c };
        assert(u == ascii_upper(c));
        upper.push(u);
        j = j + 1;
        proof {
            assert(upper@ =~= s.take(j as int).map_values(|c: char| ascii_upper(c)));
        }
    }
    let reserved = is_word3(&upper, 'C', 'O', 'N') || is_word3(&upper, 'P', 'R', 'N') || is_word3(&upper, 'A', 'U', 'X')
        || is_word3(&upper, 'N', 'U', 'L') || is_reserved_numbered(&upper);
    let body = string_of(v.as_slice(), 0, k);
    proof {
        assert(v@.subrange(0, k as int) =~= s);
    }
    if reserved {
        let mut out = String::new();
        push_char(&mut out, '_');
        push_str(&mut out, body.as_str());
        proof {
            assert(Seq::<char>::empty().push('_') + s =~= seq!['_'] + s);
        }
        Ok(out)
    } else {
        Ok(body)
    }
}

/// The name with the deleted-file marker: ` (deleted-#N)` goes before the
/// text after the last dot, or at the end without a dot.
pub open spec fn marked_name(name: Seq<char>, record_index: u64) -> Seq<char> {
    let marker = seq![' ', '(', 'd', 'e', 'l', 'e', 't', 'e', 'd', '-', '#'] + decimal(record_index as nat) + seq![')'];
    match crate::file::last_index_of(name, '.') {
        Some(i) => name.take(i) + marker + seq!['.'] + name.subrange(i + 1, name.len() as int),
        None => name + marker,
    }
}

/// Puts the deleted-file marker with the MFT record number into a name:
/// `foo.txt`, 67 gives `foo (deleted-#67).txt`; `Makefile`, 42 gives
/// `Makefile (deleted-#42)`; the last dot starts the extension.
pub fn insert_deleted_marker(filename: &str, record_index: u64) -> (r: String)
    ensures
        r@ == marked_name(filename@, record_index),
{
    let cs = chars_of(filename);
    let n = cs.len();
    let mut i = n;
    while i > 0
        invariant
            n == cs@.len(),
            cs@ == filename@,
            i <= n,
            forall|j: int| i <= j < n ==> cs@[j] != '.',
        ensures
            i == 0 || cs@[i - 1] == '.',
        decreases i,
    {
        if cs[i - 1] == '.' {
            break;
        }
        i = i - 1;
    }
    proof {
        reveal_strlit(" (deleted-#");
        reveal_strlit(")");
        reveal_strlit(").");
    }
    if i > 0 {
        proof {
            assert(crate::file::last_index_of(filename@, '.') == Some((i - 1) as int)) by {
                crate::file::lemma_last_index_of(filename@, '.');
            }
        }
        let mut out = string_of(cs.as_slice(), 0, i - 1);
        push_str(&mut out, " (deleted-#");
        push_decimal(&mut out, record_index);
        push_str(&mut out, ").");
        let ext = string_of(cs.as_slice(), i, n);
        push_str(&mut out, ext.as_str());
        proof {
            assert(out@ =~= marked_name(filename@, record_index));
        }
        out
    } else {
        proof {
            crate::file::lemma_last_index_of(filename@, '.');
        }
        let mut out = string_of(cs.as_slice(), 0, n);
        push_str(&mut out, " (deleted-#");
        push_decimal(&mut out, record_index);
        push_str(&mut out, ")");
        proof {
            assert(cs@.subrange(0, n as int) =~= filename@);
            assert(out@ =~= marked_name(filename@, record_index));
        }
        out
    }
}

} // verus!
