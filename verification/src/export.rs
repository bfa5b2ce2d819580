//! The JSON export: a pretty-printed array of `{path, resume}` objects, one
//! per video, the internal fields left out.  The text is built by a verified
//! serializer, and a specification-level reader of the same format shows
//! that parsing the export back yields exactly the exported pairs.

use vstd::prelude::*;

use crate::text::{chars_vec, string_from_chars};
use crate::video::Video;

verus! {

/// What one video contributes to the export: its path and the fields of its
/// resume.
pub struct EntryView {
    pub path: Seq<char>,
    pub title: Seq<char>,
    pub description: Seq<char>,
    pub keywords: Seq<Seq<char>>,
}

/// The exported views of a catalog's videos.
pub open spec fn export_views(vs: Seq<Video>) -> Seq<EntryView> {
    vs.map_values(
        |v: Video|
            EntryView {
                path: v.path@,
                title: v.resume.title@,
                description: v.resume.description@,
                keywords: v.resume.keywords@.map_values(|k: String| k@),
            },
    )
}

/// The lowercase hexadecimal digit for a value below sixteen.
pub open spec fn hex_digit(d: int) -> char {
    if d == 0 {
        '0'
    } else if d == 1 {
        '1'
    } else if d == 2 {
        '2'
    } else if d == 3 {
        '3'
    } else if d == 4 {
        '4'
    } else if d == 5 {
        '5'
    } else if d == 6 {
        '6'
    } else if d == 7 {
        '7'
    } else if d == 8 {
        '8'
    } else if d == 9 {
        '9'
    } else if d == 10 {
        'a'
    } else if d == 11 {
        'b'
    } else if d == 12 {
        'c'
    } else if d == 13 {
        'd'
    } else if d == 14 {
        'e'
    } else {
        'f'
    }
}

/// The value of a hexadecimal digit, or minus one.
pub open spec fn hex_val(c: char) -> int {
    if c == '0' {
        0
    } else if c == '1' {
        1
    } else if c == '2' {
        2
    } else if c == '3' {
        3
    } else if c == '4' {
        4
    } else if c == '5' {
        5
    } else if c == '6' {
        6
    } else if c == '7' {
        7
    } else if c == '8' {
        8
    } else if c == '9' {
        9
    } else if c == 'a' {
        10
    } else if c == 'b' {
        11
    } else if c == 'c' {
        12
    } else if c == 'd' {
        13
    } else if c == 'e' {
        14
    } else if c == 'f' {
        15
    } else {
        -1
    }
}

/// How one character is written inside a JSON string: quote and backslash
/// escaped, the common control characters by letter, the remaining control
/// characters as four hexadecimal digits, and everything else as itself.
pub open spec fn esc_char(c: char) -> Seq<char> {
    if c == '"' {
        seq!['\\', '"']
    } else if c == '\\' {
        seq!['\\', '\\']
    } else if c == '\n' {
        seq!['\\', 'n']
    } else if c == '\r' {
        seq!['\\', 'r']
    } else if c == '\t' {
        seq!['\\', 't']
    } else if (c as int) < 32 {
        seq!['\\', 'u', '0', '0', hex_digit(c as int / 16), hex_digit(c as int % 16)]
    } else {
        seq![c]
    }
}

/// A string's characters written for JSON, escapes applied.
pub open spec fn esc(s: Seq<char>) -> Seq<char>
    decreases s.len(),
{
    if s.len() == 0 {
        Seq::empty()
    } else {
        esc_char(s[0]) + esc(s.drop_first())
    }
}

/// A JSON string token: the escaped text between quotes.
pub open spec fn jstr(s: Seq<char>) -> Seq<char> {
    seq!['"'] + esc(s) + seq!['"']
}

/// JSON whitespace.
pub open spec fn jws(c: char) -> bool {
    c == ' ' || c == '\n' || c == '\t' || c == '\r'
}

/// Whether a sequence is all whitespace.
pub open spec fn all_jws(s: Seq<char>) -> bool {
    forall|i: int| 0 <= i < s.len() ==> jws(#[trigger] s[i])
}

// The serializer's whitespace and punctuation pieces, written as character
// sequences so that proofs read them directly.
pub open spec fn nl_ind(n: int) -> Seq<char> {
    seq!['\n'] + Seq::new(n as nat, |i: int| ' ')
}

/// One keyword line: eight spaces of indentation, then the string.
pub open spec fn ser_kw_items(ks: Seq<Seq<char>>) -> Seq<char>
    decreases ks.len(),
{
    if ks.len() == 0 {
        Seq::empty()
    } else if ks.len() == 1 {
        nl_ind(8) + jstr(ks[0])
    } else {
        nl_ind(8) + jstr(ks[0]) + seq![','] + ser_kw_items(ks.drop_first())
    }
}

/// The keywords array: empty brackets for no keywords, otherwise one
/// keyword per line.
pub open spec fn ser_keywords(ks: Seq<Seq<char>>) -> Seq<char> {
    if ks.len() == 0 {
        seq!['[', ']']
    } else {
        seq!['['] + ser_kw_items(ks) + nl_ind(6) + seq![']']
    }
}

/// A resume object: title, description and keywords, pretty-printed.
pub open spec fn ser_resume(e: EntryView) -> Seq<char> {
    seq!['{'] + nl_ind(6) + jstr(seq!['t', 'i', 't', 'l', 'e']) + seq![':', ' '] + jstr(e.title)
        + seq![','] + nl_ind(6) + jstr(seq!['d', 'e', 's', 'c', 'r', 'i', 'p', 't', 'i', 'o', 'n'])
        + seq![':', ' '] + jstr(e.description) + seq![','] + nl_ind(6) + jstr(
        seq!['k', 'e', 'y', 'w', 'o', 'r', 'd', 's'],
    ) + seq![':', ' '] + ser_keywords(e.keywords) + nl_ind(4) + seq!['}']
}

/// One exported video: its path and its resume's fields, pretty-printed two
/// levels deep.
pub open spec fn ser_entry(e: EntryView) -> Seq<char> {
    seq!['{'] + nl_ind(4) + jstr(seq!['p', 'a', 't', 'h']) + seq![':', ' '] + jstr(e.path) + seq![
        ',',
    ] + nl_ind(4) + jstr(seq!['r', 'e', 's', 'u', 'm', 'e']) + seq![':', ' '] + ser_resume(e)
        + nl_ind(2) + seq!['}']
}

/// The export's entries, each on its own indented line.
pub open spec fn ser_entries(es: Seq<EntryView>) -> Seq<char>
    decreases es.len(),
{
    if es.len() == 0 {
        Seq::empty()
    } else if es.len() == 1 {
        nl_ind(2) + ser_entry(es[0])
    } else {
        nl_ind(2) + ser_entry(es[0]) + seq![','] + ser_entries(es.drop_first())
    }
}

/// The whole export: a JSON array of the entries.
pub open spec fn ser_export(es: Seq<EntryView>) -> Seq<char> {
    if es.len() == 0 {
        seq!['[', ']']
    } else {
        seq!['['] + ser_entries(es) + nl_ind(0) + seq![']']
    }
}

// ---------------------------------------------------------------------
// A reader of the export format, at the specification level.  It consumes
// from the front and hands back the remainder, skipping whitespace between
// tokens, so that re-parsing an export can be related to the serializer
// piece by piece.
/// `s` without its leading whitespace.
pub open spec fn sp_skip_ws(s: Seq<char>) -> Seq<char>
    decreases s.len(),
{
    if s.len() > 0 && jws(s[0]) {
        sp_skip_ws(s.drop_first())
    } else {
        s
    }
}

/// Consumes the punctuation character `c`, whitespace allowed ahead of it.
pub open spec fn sp_expect(s: Seq<char>, c: char) -> Option<Seq<char>> {
    let t = sp_skip_ws(s);
    if t.len() > 0 && t[0] == c {
        Some(t.drop_first())
    } else {
        None::<Seq<char>>
    }
}

/// What one escape letter stands for.
pub open spec fn unesc_letter(c: char) -> Option<char> {
    if c == '"' {
        Some('"')
    } else if c == '\\' {
        Some('\\')
    } else if c == '/' {
        Some('/')
    } else if c == 'n' {
        Some('\n')
    } else if c == 'r' {
        Some('\r')
    } else if c == 't' {
        Some('\t')
    } else if c == 'b' {
        Some('\u{8}')
    } else if c == 'f' {
        Some('\u{c}')
    } else {
        None::<char>
    }
}

/// Reads a JSON string's body up to its closing quote: the decoded text and
/// the remainder after the quote.
pub open spec fn sp_str_body(s: Seq<char>) -> Option<(Seq<char>, Seq<char>)>
    decreases s.len(),
{
    if s.len() == 0 {
        None::<(Seq<char>, Seq<char>)>
    } else if s[0] == '"' {
        Some((Seq::empty(), s.drop_first()))
    } else if s[0] == '\\' {
        if s.len() >= 6 && s[1] == 'u' && s[2] == '0' && s[3] == '0' && hex_val(s[4]) >= 0
            && hex_val(s[5]) >= 0 {
            match sp_str_body(s.skip(6)) {
                Some((t, r)) => Some(
                    (seq![(hex_val(s[4]) * 16 + hex_val(s[5])) as char] + t, r),
                ),
                None => None::<(Seq<char>, Seq<char>)>,
            }
        } else if s.len() >= 2 && unesc_letter(s[1]) is Some {
            match sp_str_body(s.skip(2)) {
                Some((t, r)) => Some((seq![unesc_letter(s[1]).unwrap()] + t, r)),
                None => None::<(Seq<char>, Seq<char>)>,
            }
        } else {
            None::<(Seq<char>, Seq<char>)>
        }
    } else {
        match sp_str_body(s.drop_first()) {
            Some((t, r)) => Some((seq![s[0]] + t, r)),
            None => None::<(Seq<char>, Seq<char>)>,
        }
    }
}

/// Reads a JSON string token: leading whitespace, a quote, the body.
pub open spec fn sp_string(s: Seq<char>) -> Option<(Seq<char>, Seq<char>)> {
    let t = sp_skip_ws(s);
    if t.len() > 0 && t[0] == '"' {
        sp_str_body(t.drop_first())
    } else {
        None::<(Seq<char>, Seq<char>)>
    }
}

proof fn lemma_sp_skip_ws_le(s: Seq<char>)
    ensures
        sp_skip_ws(s).len() <= s.len(),
    decreases s.len(),
{
    if s.len() > 0 && jws(s[0]) {
        lemma_sp_skip_ws_le(s.drop_first());
    }
}

proof fn lemma_sp_str_body_shrinks(s: Seq<char>)
    ensures
        sp_str_body(s) matches Some((t, r)) ==> r.len() < s.len(),
    decreases s.len(),
{
    if s.len() == 0 {
    } else if s[0] == '"' {
    } else if s[0] == '\\' {
        if s.len() >= 6 && s[1] == 'u' && s[2] == '0' && s[3] == '0' && hex_val(s[4]) >= 0
            && hex_val(s[5]) >= 0 {
            lemma_sp_str_body_shrinks(s.skip(6));
        } else if s.len() >= 2 && unesc_letter(s[1]) is Some {
            lemma_sp_str_body_shrinks(s.skip(2));
        }
    } else {
        lemma_sp_str_body_shrinks(s.drop_first());
    }
}

proof fn lemma_sp_string_shrinks(s: Seq<char>)
    ensures
        sp_string(s) matches Some((t, r)) ==> r.len() < s.len(),
{
    lemma_sp_skip_ws_le(s);
    let t = sp_skip_ws(s);
    if t.len() > 0 && t[0] == '"' {
        lemma_sp_str_body_shrinks(t.drop_first());
    }
}

proof fn lemma_sp_expect_shrinks(s: Seq<char>, c: char)
    ensures
        sp_expect(s, c) matches Some(r) ==> r.len() < s.len(),
{
    lemma_sp_skip_ws_le(s);
}

/// Reads the items of a non-empty keywords array, after its opening
/// bracket: the strings and the remainder after the closing bracket.
pub open spec fn sp_kw_items(s: Seq<char>) -> Option<(Seq<Seq<char>>, Seq<char>)>
    decreases s.len(),
    via sp_kw_items_decreases
{
    match sp_string(s) {
        Some((t, r)) => {
            let u = sp_skip_ws(r);
            if u.len() > 0 && u[0] == ',' {
                match sp_kw_items(u.drop_first()) {
                    Some((ts, r2)) => Some((seq![t] + ts, r2)),
                    None => None::<(Seq<Seq<char>>, Seq<char>)>,
                }
            } else if u.len() > 0 && u[0] == ']' {
                Some((seq![t], u.drop_first()))
            } else {
                None::<(Seq<Seq<char>>, Seq<char>)>
            }
        },
        None => None::<(Seq<Seq<char>>, Seq<char>)>,
    }
}

#[via_fn]
proof fn sp_kw_items_decreases(s: Seq<char>) {
    lemma_sp_string_shrinks(s);
    match sp_string(s) {
        Some((t, r)) => {
            lemma_sp_skip_ws_le(r);
        },
        None => {},
    }
}

/// Reads a keywords array: empty brackets, or bracketed items.
pub open spec fn sp_keywords(s: Seq<char>) -> Option<(Seq<Seq<char>>, Seq<char>)> {
    match sp_expect(s, '[') {
        Some(r) => {
            let u = sp_skip_ws(r);
            if u.len() > 0 && u[0] == ']' {
                Some((Seq::<Seq<char>>::empty(), u.drop_first()))
            } else {
                sp_kw_items(r)
            }
        },
        None => None::<(Seq<Seq<char>>, Seq<char>)>,
    }
}

/// Reads an object key: the quoted name followed by a colon.
pub open spec fn sp_key(s: Seq<char>, name: Seq<char>) -> Option<Seq<char>> {
    match sp_string(s) {
        Some((t, r)) => if t == name {
            sp_expect(r, ':')
        } else {
            None::<Seq<char>>
        },
        None => None::<Seq<char>>,
    }
}

/// Reads a resume object: its title, description and keywords, and the
/// remainder after the closing brace.
pub open spec fn sp_resume(s: Seq<char>) -> Option<((Seq<char>, Seq<char>, Seq<Seq<char>>), Seq<char>)> {
    match sp_expect(s, '{') {
        Some(r1) => match sp_key(r1, seq!['t', 'i', 't', 'l', 'e']) {
            Some(r2) => match sp_string(r2) {
                Some((title, r3)) => match sp_expect(r3, ',') {
                    Some(r4) => match sp_key(
                        r4,
                        seq!['d', 'e', 's', 'c', 'r', 'i', 'p', 't', 'i', 'o', 'n'],
                    ) {
                        Some(r5) => match sp_string(r5) {
                            Some((description, r6)) => match sp_expect(r6, ',') {
                                Some(r7) => match sp_key(
                                    r7,
                                    seq!['k', 'e', 'y', 'w', 'o', 'r', 'd', 's'],
                                ) {
                                    Some(r8) => match sp_keywords(r8) {
                                        Some((keywords, r9)) => match sp_expect(r9, '}') {
                                            Some(r10) => Some(
                                                ((title, description, keywords), r10),
                                            ),
                                            None => None,
                                        },
                                        None => None,
                                    },
                                    None => None,
                                },
                                None => None,
                            },
                            None => None,
                        },
                        None => None,
                    },
                    None => None,
                },
                None => None,
            },
            None => None,
        },
        None => None,
    }
}

/// Reads one exported entry: its path and resume, and the remainder after
/// the closing brace.
pub open spec fn sp_entry(s: Seq<char>) -> Option<(EntryView, Seq<char>)> {
    match sp_expect(s, '{') {
        Some(r1) => match sp_key(r1, seq!['p', 'a', 't', 'h']) {
            Some(r2) => match sp_string(r2) {
                Some((path, r3)) => match sp_expect(r3, ',') {
                    Some(r4) => match sp_key(r4, seq!['r', 'e', 's', 'u', 'm', 'e']) {
                        Some(r5) => match sp_resume(r5) {
                            Some(((title, description, keywords), r6)) => match sp_expect(
                                r6,
                                '}',
                            ) {
                                Some(r7) => Some(
                                    (EntryView { path, title, description, keywords }, r7),
                                ),
                                None => None,
                            },
                            None => None,
                        },
                        None => None,
                    },
                    None => None,
                },
                None => None,
            },
            None => None,
        },
        None => None,
    }
}

proof fn lemma_sp_kw_items_shrinks(s: Seq<char>)
    ensures
        sp_kw_items(s) matches Some((ts, r)) ==> r.len() < s.len(),
    decreases s.len(),
{
    lemma_sp_string_shrinks(s);
    match sp_string(s) {
        Some((t, r)) => {
            lemma_sp_skip_ws_le(r);
            let u = sp_skip_ws(r);
            if u.len() > 0 && u[0] == ',' {
                lemma_sp_kw_items_shrinks(u.drop_first());
            }
        },
        None => {},
    }
}

proof fn lemma_sp_keywords_shrinks(s: Seq<char>)
    ensures
        sp_keywords(s) matches Some((ts, r)) ==> r.len() < s.len(),
{
    lemma_sp_expect_shrinks(s, '[');
    match sp_expect(s, '[') {
        Some(r) => {
            lemma_sp_skip_ws_le(r);
            lemma_sp_kw_items_shrinks(r);
        },
        None => {},
    }
}

proof fn lemma_sp_key_shrinks(s: Seq<char>, name: Seq<char>)
    ensures
        sp_key(s, name) matches Some(r) ==> r.len() < s.len(),
{
    lemma_sp_string_shrinks(s);
    match sp_string(s) {
        Some((t, r)) => {
            lemma_sp_expect_shrinks(r, ':');
        },
        None => {},
    }
}

proof fn lemma_sp_entry_shrinks(s: Seq<char>)
    ensures
        sp_entry(s) matches Some((e, r)) ==> r.len() < s.len(),
{
    lemma_sp_expect_shrinks(s, '{');
    match sp_expect(s, '{') {
        Some(r1) => {
            lemma_sp_key_shrinks(r1, seq!['p', 'a', 't', 'h']);
            match sp_key(r1, seq!['p', 'a', 't', 'h']) {
                Some(r2) => {
                    lemma_sp_string_shrinks(r2);
                    match sp_string(r2) {
                        Some((path, r3)) => {
                            lemma_sp_expect_shrinks(r3, ',');
                            match sp_expect(r3, ',') {
                                Some(r4) => {
                                    lemma_sp_key_shrinks(
                                        r4,
                                        seq!['r', 'e', 's', 'u', 'm', 'e'],
                                    );
                                    match sp_key(r4, seq!['r', 'e', 's', 'u', 'm', 'e']) {
                                        Some(r5) => {
                                            lemma_sp_resume_shrinks(r5);
                                            match sp_resume(r5) {
                                                Some((fields, r6)) => {
                                                    lemma_sp_expect_shrinks(r6, '}');
                                                },
                                                None => {},
                                            }
                                        },
                                        None => {},
                                    }
                                },
                                None => {},
                            }
                        },
                        None => {},
                    }
                },
                None => {},
            }
        },
        None => {},
    }
}

proof fn lemma_sp_resume_shrinks(s: Seq<char>)
    ensures
        sp_resume(s) matches Some((f, r)) ==> r.len() < s.len(),
{
    lemma_sp_expect_shrinks(s, '{');
    match sp_expect(s, '{') {
        Some(r1) => {
            lemma_sp_key_shrinks(r1, seq!['t', 'i', 't', 'l', 'e']);
            match sp_key(r1, seq!['t', 'i', 't', 'l', 'e']) {
                Some(r2) => {
                    lemma_sp_string_shrinks(r2);
                    match sp_string(r2) {
                        Some((title, r3)) => {
                            lemma_sp_expect_shrinks(r3, ',');
                            match sp_expect(r3, ',') {
                                Some(r4) => {
                                    lemma_sp_key_shrinks(
                                        r4,
                                        seq![
                                            'd',
                                            'e',
                                            's',
                                            'c',
                                            'r',
                                            'i',
                                            'p',
                                            't',
                                            'i',
                                            'o',
                                            'n',
                                        ],
                                    );
                                    match sp_key(
                                        r4,
                                        seq![
                                            'd',
                                            'e',
                                            's',
                                            'c',
                                            'r',
                                            'i',
                                            'p',
                                            't',
                                            'i',
                                            'o',
                                            'n',
                                        ],
                                    ) {
                                        Some(r5) => {
                                            lemma_sp_string_shrinks(r5);
                                            match sp_string(r5) {
                                                Some((description, r6)) => {
                                                    lemma_sp_expect_shrinks(r6, ',');
                                                    match sp_expect(r6, ',') {
                                                        Some(r7) => {
                                                            lemma_sp_key_shrinks(
                                                                r7,
                                                                seq![
                                                                    'k',
                                                                    'e',
                                                                    'y',
                                                                    'w',
                                                                    'o',
                                                                    'r',
                                                                    'd',
                                                                    's',
                                                                ],
                                                            );
                                                            match sp_key(
                                                                r7,
                                                                seq![
                                                                    'k',
                                                                    'e',
                                                                    'y',
                                                                    'w',
                                                                    'o',
                                                                    'r',
                                                                    'd',
                                                                    's',
                                                                ],
                                                            ) {
                                                                Some(r8) => {
                                                                    lemma_sp_keywords_shrinks(
                                                                        r8,
                                                                    );
                                                                    match sp_keywords(r8) {
                                                                        Some((ks, r9)) => {
                                                                            lemma_sp_expect_shrinks(
                                                                                r9,
                                                                                '}',
                                                                            );
                                                                        },
                                                                        None => {},
                                                                    }
                                                                },
                                                                None => {},
                                                            }
                                                        },
                                                        None => {},
                                                    }
                                                },
                                                None => {},
                                            }
                                        },
                                        None => {},
                                    }
                                },
                                None => {},
                            }
                        },
                        None => {},
                    }
                },
                None => {},
            }
        },
        None => {},
    }
}

/// Reads the entries of a non-empty export array, after its opening
/// bracket.
pub open spec fn sp_entries(s: Seq<char>) -> Option<(Seq<EntryView>, Seq<char>)>
    decreases s.len(),
    via sp_entries_decreases
{
    match sp_entry(s) {
        Some((e, r)) => {
            let u = sp_skip_ws(r);
            if u.len() > 0 && u[0] == ',' {
                match sp_entries(u.drop_first()) {
                    Some((es, r2)) => Some((seq![e] + es, r2)),
                    None => None::<(Seq<EntryView>, Seq<char>)>,
                }
            } else if u.len() > 0 && u[0] == ']' {
                Some((seq![e], u.drop_first()))
            } else {
                None::<(Seq<EntryView>, Seq<char>)>
            }
        },
        None => None::<(Seq<EntryView>, Seq<char>)>,
    }
}

#[via_fn]
proof fn sp_entries_decreases(s: Seq<char>) {
    lemma_sp_entry_shrinks(s);
    match sp_entry(s) {
        Some((e, r)) => {
            lemma_sp_skip_ws_le(r);
        },
        None => {},
    }
}

/// Whether every control character in `s` carries a genuine (non-negative)
/// code point.  Every character of a real string does; the hypothesis only
/// rules out the meaningless abstract sequences whose elements lie outside
/// the character range, for which a four-hex-digit escape could not encode
/// the element.
pub open spec fn ctl_chars_ok(s: Seq<char>) -> bool {
    forall|i: int| 0 <= i < s.len() ==> (((#[trigger] s[i]) as int) < 32 ==> 0 <= s[i] as int)
}

/// `ctl_chars_ok` over every string of an entry.
pub open spec fn entry_ok(e: EntryView) -> bool {
    &&& ctl_chars_ok(e.path)
    &&& ctl_chars_ok(e.title)
    &&& ctl_chars_ok(e.description)
    &&& forall|i: int| 0 <= i < e.keywords.len() ==> ctl_chars_ok(#[trigger] e.keywords[i])
}

/// `entry_ok` over every entry.
pub open spec fn entries_ok(es: Seq<EntryView>) -> bool {
    forall|i: int| 0 <= i < es.len() ==> entry_ok(#[trigger] es[i])
}

proof fn lemma_skip_ws_all(w: Seq<char>, s: Seq<char>)
    requires
        all_jws(w),
    ensures
        sp_skip_ws(w + s) == sp_skip_ws(s),
    decreases w.len(),
{
    if w.len() == 0 {
        assert(w + s =~= s);
    } else {
        assert(jws((w + s)[0]));
        assert((w + s).drop_first() =~= w.drop_first() + s);
        assert(all_jws(w.drop_first())) by {
            assert forall|i: int| 0 <= i < w.drop_first().len() implies jws(
                #[trigger] w.drop_first()[i],
            ) by {
                assert(w.drop_first()[i] == w[i + 1]);
            }
        }
        lemma_skip_ws_all(w.drop_first(), s);
    }
}

proof fn lemma_expect_tok(w: Seq<char>, c: char, rest: Seq<char>)
    requires
        all_jws(w),
        !jws(c),
    ensures
        sp_expect(w + seq![c] + rest, c) == Some(rest),
{
    assert(w + seq![c] + rest =~= w + (seq![c] + rest));
    lemma_skip_ws_all(w, seq![c] + rest);
    assert((seq![c] + rest)[0] == c);
    assert(sp_skip_ws(seq![c] + rest) == seq![c] + rest);
    assert((seq![c] + rest).drop_first() =~= rest);
}

proof fn lemma_hex_inverse(d: int)
    requires
        0 <= d < 16,
    ensures
        hex_val(hex_digit(d)) == d,
{
}

proof fn lemma_str_body_esc(t: Seq<char>, rest: Seq<char>)
    requires
        ctl_chars_ok(t),
    ensures
        sp_str_body(esc(t) + seq!['"'] + rest) == Some((t, rest)),
    decreases t.len(),
{
    let x = esc(t) + seq!['"'] + rest;
    if t.len() == 0 {
        assert(x =~= seq!['"'] + rest);
        assert(x[0] == '"');
        assert(x.drop_first() =~= rest);
    } else {
        let c = t[0];
        let x2 = esc(t.drop_first()) + seq!['"'] + rest;
        assert(ctl_chars_ok(t.drop_first())) by {
            assert forall|i: int|
                0 <= i < t.drop_first().len() && ((#[trigger] t.drop_first()[i]) as int)
                    < 32 implies 0 <= t.drop_first()[i] as int by {
                assert(t.drop_first()[i] == t[i + 1]);
            }
        }
        lemma_str_body_esc(t.drop_first(), rest);
        assert(x =~= esc_char(c) + x2);
        if c == '"' || c == '\\' || c == '\n' || c == '\r' || c == '\t' {
            // A two-character escape.
            assert(x[0] == '\\');
            assert(x[1] == esc_char(c)[1]);
            assert(x[1] != 'u');
            assert(unesc_letter(x[1]) == Some(c));
            assert(x.skip(2) =~= x2);
            assert(seq![c] + t.drop_first() =~= t);
        } else if (c as int) < 32 {
            // A four-hex-digit escape.
            let hi = c as int / 16;
            let lo = c as int % 16;
            assert((t[0] as int) < 32 ==> 0 <= t[0] as int);
            assert(0 <= (c as int) && (c as int) < 32);
            assert(0 <= hi < 16 && 0 <= lo < 16);
            assert(x.len() >= 7);
            assert(x[0] == '\\' && x[1] == 'u' && x[2] == '0' && x[3] == '0');
            assert(x[4] == hex_digit(hi) && x[5] == hex_digit(lo));
            lemma_hex_inverse(hi);
            lemma_hex_inverse(lo);
            vstd::arithmetic::div_mod::lemma_fundamental_div_mod(c as int, 16);
            assert(hex_val(x[4]) * 16 + hex_val(x[5]) == c as int);
            assert(((c as int) as char) == c);
            assert(x.skip(6) =~= x2);
            assert(seq![c] + t.drop_first() =~= t);
        } else {
            // The character stands for itself.
            assert(x[0] == c);
            assert(x[0] != '"' && x[0] != '\\');
            assert(x.drop_first() =~= x2);
            assert(seq![c] + t.drop_first() =~= t);
        }
    }
}

proof fn lemma_string_tok(w: Seq<char>, t: Seq<char>, rest: Seq<char>)
    requires
        all_jws(w),
        ctl_chars_ok(t),
    ensures
        sp_string(w + jstr(t) + rest) == Some((t, rest)),
{
    let x = esc(t) + seq!['"'] + rest;
    assert(w + jstr(t) + rest =~= w + (seq!['"'] + x));
    lemma_skip_ws_all(w, seq!['"'] + x);
    assert((seq!['"'] + x)[0] == '"');
    assert(sp_skip_ws(seq!['"'] + x) == seq!['"'] + x);
    assert((seq!['"'] + x).drop_first() =~= x);
    lemma_str_body_esc(t, rest);
}

proof fn lemma_key_tok(w: Seq<char>, name: Seq<char>, rest: Seq<char>)
    requires
        all_jws(w),
        ctl_chars_ok(name),
    ensures
        sp_key(w + jstr(name) + seq![':'] + rest, name) == Some(rest),
{
    assert(w + jstr(name) + seq![':'] + rest =~= w + jstr(name) + (seq![':'] + rest));
    lemma_string_tok(w, name, seq![':'] + rest);
    assert(Seq::<char>::empty() + seq![':'] + rest =~= seq![':'] + rest);
    lemma_expect_tok(Seq::<char>::empty(), ':', rest);
}

proof fn lemma_nl_ind_ws(n: int)
    requires
        n >= 0,
    ensures
        all_jws(nl_ind(n)),
{
    assert forall|i: int| 0 <= i < nl_ind(n).len() implies jws(#[trigger] nl_ind(n)[i]) by {
        if i > 0 {
            assert(nl_ind(n)[i] == ' ');
        }
    }
}

proof fn lemma_kw_items_parse(ks: Seq<Seq<char>>, rest: Seq<char>)
    requires
        ks.len() >= 1,
        forall|i: int| 0 <= i < ks.len() ==> ctl_chars_ok(#[trigger] ks[i]),
    ensures
        sp_kw_items(ser_kw_items(ks) + nl_ind(6) + seq![']'] + rest) == Some((ks, rest)),
    decreases ks.len(),
{
    lemma_nl_ind_ws(8);
    lemma_nl_ind_ws(6);
    let s = ser_kw_items(ks) + nl_ind(6) + seq![']'] + rest;
    if ks.len() == 1 {
        let t1 = nl_ind(6) + seq![']'] + rest;
        assert(s =~= nl_ind(8) + jstr(ks[0]) + t1);
        lemma_string_tok(nl_ind(8), ks[0], t1);
        lemma_skip_ws_all(nl_ind(6), seq![']'] + rest);
        assert(sp_skip_ws(seq![']'] + rest) == seq![']'] + rest);
        assert(t1 =~= nl_ind(6) + (seq![']'] + rest));
        let u = sp_skip_ws(t1);
        assert(u == seq![']'] + rest);
        assert(u[0] == ']');
        assert(u.drop_first() =~= rest);
        assert(seq![ks[0]] =~= ks);
    } else {
        let tail = ser_kw_items(ks.drop_first()) + nl_ind(6) + seq![']'] + rest;
        let t1 = seq![','] + tail;
        assert(s =~= nl_ind(8) + jstr(ks[0]) + t1);
        lemma_string_tok(nl_ind(8), ks[0], t1);
        assert(sp_skip_ws(t1) == t1);
        assert(t1[0] == ',');
        assert(t1.drop_first() =~= tail);
        assert forall|i: int| 0 <= i < ks.drop_first().len() implies ctl_chars_ok(
            #[trigger] ks.drop_first()[i],
        ) by {
            assert(ks.drop_first()[i] == ks[i + 1]);
        }
        lemma_kw_items_parse(ks.drop_first(), rest);
        assert(seq![ks[0]] + ks.drop_first() =~= ks);
    }
}

proof fn lemma_keywords_parse(w: Seq<char>, ks: Seq<Seq<char>>, rest: Seq<char>)
    requires
        all_jws(w),
        forall|i: int| 0 <= i < ks.len() ==> ctl_chars_ok(#[trigger] ks[i]),
    ensures
        sp_keywords(w + ser_keywords(ks) + rest) == Some((ks, rest)),
{
    let s = w + ser_keywords(ks) + rest;
    if ks.len() == 0 {
        let t1 = seq![']'] + rest;
        assert(s =~= w + seq!['['] + t1);
        lemma_expect_tok(w, '[', t1);
        assert(sp_skip_ws(t1) == t1);
        assert(t1[0] == ']');
        assert(t1.drop_first() =~= rest);
    } else {
        let t1 = ser_kw_items(ks) + nl_ind(6) + seq![']'] + rest;
        assert(s =~= w + seq!['['] + t1);
        lemma_expect_tok(w, '[', t1);
        lemma_kw_items_parse(ks, rest);
        // The first keyword line starts with whitespace and a quote, so the
        // empty-array branch is not taken.
        lemma_nl_ind_ws(8);
        assert(t1 =~= nl_ind(8) + (jstr(ks[0]) + (ser_kw_items_tail(ks) + nl_ind(6) + seq![']']
            + rest)));
        lemma_skip_ws_all(nl_ind(8), jstr(ks[0]) + (ser_kw_items_tail(ks) + nl_ind(6) + seq![']']
            + rest));
        let u = sp_skip_ws(t1);
        assert(u[0] == '"');
    }
}

/// What follows the first keyword line in a keyword list.
pub open spec fn ser_kw_items_tail(ks: Seq<Seq<char>>) -> Seq<char> {
    if ks.len() <= 1 {
        Seq::empty()
    } else {
        seq![','] + ser_kw_items(ks.drop_first())
    }
}

#[verifier::rlimit(100)]
proof fn lemma_resume_parse(w: Seq<char>, e: EntryView, rest: Seq<char>)
    requires
        all_jws(w),
        entry_ok(e),
    ensures
        sp_resume(w + ser_resume(e) + rest) == Some(((e.title, e.description, e.keywords), rest)),
{
    lemma_nl_ind_ws(6);
    lemma_nl_ind_ws(4);
    let s = w + ser_resume(e) + rest;
    let t9 = nl_ind(4) + seq!['}'] + rest;
    let t8 = seq![' '] + ser_keywords(e.keywords) + t9;
    let t7 = nl_ind(6) + jstr(seq!['k', 'e', 'y', 'w', 'o', 'r', 'd', 's']) + seq![':'] + t8;
    let t6 = seq![','] + t7;
    let t5 = seq![' '] + jstr(e.description) + t6;
    let t4 = nl_ind(6) + jstr(seq!['d', 'e', 's', 'c', 'r', 'i', 'p', 't', 'i', 'o', 'n']) + seq![
        ':',
    ] + t5;
    let t3 = seq![','] + t4;
    let t2 = seq![' '] + jstr(e.title) + t3;
    let t1 = nl_ind(6) + jstr(seq!['t', 'i', 't', 'l', 'e']) + seq![':'] + t2;
    assert(s =~= w + seq!['{'] + t1);
    lemma_expect_tok(w, '{', t1);
    lemma_key_tok(nl_ind(6), seq!['t', 'i', 't', 'l', 'e'], t2);
    lemma_string_tok(seq![' '], e.title, t3);
    assert(t3 =~= Seq::<char>::empty() + seq![','] + t4);
    lemma_expect_tok(Seq::<char>::empty(), ',', t4);
    lemma_key_tok(nl_ind(6), seq!['d', 'e', 's', 'c', 'r', 'i', 'p', 't', 'i', 'o', 'n'], t5);
    lemma_string_tok(seq![' '], e.description, t6);
    assert(t6 =~= Seq::<char>::empty() + seq![','] + t7);
    lemma_expect_tok(Seq::<char>::empty(), ',', t7);
    lemma_key_tok(nl_ind(6), seq!['k', 'e', 'y', 'w', 'o', 'r', 'd', 's'], t8);
    assert(t8 =~= seq![' '] + ser_keywords(e.keywords) + t9);
    lemma_keywords_parse(seq![' '], e.keywords, t9);
    assert(t9 =~= nl_ind(4) + seq!['}'] + rest);
    lemma_expect_tok(nl_ind(4), '}', rest);
}

#[verifier::rlimit(100)]
proof fn lemma_entry_parse(w: Seq<char>, e: EntryView, rest: Seq<char>)
    requires
        all_jws(w),
        entry_ok(e),
    ensures
        sp_entry(w + ser_entry(e) + rest) == Some((e, rest)),
{
    lemma_nl_ind_ws(4);
    lemma_nl_ind_ws(2);
    let s = w + ser_entry(e) + rest;
    let t5 = nl_ind(2) + seq!['}'] + rest;
    let t4 = seq![' '] + ser_resume(e) + t5;
    let t3 = nl_ind(4) + jstr(seq!['r', 'e', 's', 'u', 'm', 'e']) + seq![':'] + t4;
    let t2 = seq![','] + t3;
    let t1a = seq![' '] + jstr(e.path) + t2;
    let t1 = nl_ind(4) + jstr(seq!['p', 'a', 't', 'h']) + seq![':'] + t1a;
    assert(s =~= w + seq!['{'] + t1);
    lemma_expect_tok(w, '{', t1);
    lemma_key_tok(nl_ind(4), seq!['p', 'a', 't', 'h'], t1a);
    lemma_string_tok(seq![' '], e.path, t2);
    assert(t2 =~= Seq::<char>::empty() + seq![','] + t3);
    lemma_expect_tok(Seq::<char>::empty(), ',', t3);
    lemma_key_tok(nl_ind(4), seq!['r', 'e', 's', 'u', 'm', 'e'], t4);
    lemma_resume_parse(seq![' '], e, t5);
    assert(t5 =~= nl_ind(2) + seq!['}'] + rest);
    lemma_expect_tok(nl_ind(2), '}', rest);
    assert(sp_entry(s) == Some(
        (
            EntryView {
                path: e.path,
                title: e.title,
                description: e.description,
                keywords: e.keywords,
            },
            rest,
        ),
    ));
    assert(e == (EntryView {
        path: e.path,
        title: e.title,
        description: e.description,
        keywords: e.keywords,
    }));
}

#[verifier::rlimit(100)]
proof fn lemma_entries_parse(es: Seq<EntryView>, rest: Seq<char>)
    requires
        es.len() >= 1,
        entries_ok(es),
    ensures
        sp_entries(ser_entries(es) + nl_ind(0) + seq![']'] + rest) == Some((es, rest)),
    decreases es.len(),
{
    lemma_nl_ind_ws(2);
    lemma_nl_ind_ws(0);
    let s = ser_entries(es) + nl_ind(0) + seq![']'] + rest;
    if es.len() == 1 {
        let t1 = nl_ind(0) + seq![']'] + rest;
        assert(s =~= nl_ind(2) + ser_entry(es[0]) + t1);
        lemma_entry_parse(nl_ind(2), es[0], t1);
        lemma_skip_ws_all(nl_ind(0), seq![']'] + rest);
        assert(sp_skip_ws(seq![']'] + rest) == seq![']'] + rest);
        assert(t1 =~= nl_ind(0) + (seq![']'] + rest));
        let u = sp_skip_ws(t1);
        assert(u == seq![']'] + rest);
        assert(u[0] == ']');
        assert(u.drop_first() =~= rest);
        assert(seq![es[0]] =~= es);
    } else {
        let tail = ser_entries(es.drop_first()) + nl_ind(0) + seq![']'] + rest;
        let t1 = seq![','] + tail;
        assert(s =~= nl_ind(2) + ser_entry(es[0]) + t1);
        lemma_entry_parse(nl_ind(2), es[0], t1);
        assert(sp_skip_ws(t1) == t1);
        assert(t1[0] == ',');
        assert(t1.drop_first() =~= tail);
        assert(entries_ok(es.drop_first())) by {
            assert forall|i: int| 0 <= i < es.drop_first().len() implies entry_ok(
                #[trigger] es.drop_first()[i],
            ) by {
                assert(es.drop_first()[i] == es[i + 1]);
            }
        }
        lemma_entries_parse(es.drop_first(), rest);
        assert(seq![es[0]] + es.drop_first() =~= es);
    }
}

/// Re-parsing a serialized export yields exactly the exported entries: the
/// reader of the export format, applied to what the serializer wrote, hands
/// back every entry's path, title, description and keywords unchanged.
#[verifier::rlimit(100)]
pub proof fn lemma_export_parse(es: Seq<EntryView>)
    requires
        entries_ok(es),
    ensures
        sp_export(ser_export(es)) == Some(es),
{
    let s = ser_export(es);
    if es.len() == 0 {
        let t1 = seq![']'];
        assert(s =~= Seq::<char>::empty() + seq!['['] + t1);
        lemma_expect_tok(Seq::<char>::empty(), '[', t1);
        assert(sp_skip_ws(t1) == t1);
        assert(t1[0] == ']');
        assert(t1.drop_first() =~= Seq::<char>::empty());
        assert(es =~= Seq::<EntryView>::empty());
    } else {
        let t1 = ser_entries(es) + nl_ind(0) + seq![']'] + Seq::<char>::empty();
        assert(s =~= Seq::<char>::empty() + seq!['['] + t1);
        lemma_expect_tok(Seq::<char>::empty(), '[', t1);
        lemma_entries_parse(es, Seq::<char>::empty());
        // The first entry line starts with whitespace and a brace, so the
        // empty-array branch is not taken.
        lemma_nl_ind_ws(2);
        let after = ser_entries_tail(es) + nl_ind(0) + seq![']'] + Seq::<char>::empty();
        assert(t1 =~= nl_ind(2) + (seq!['{'] + (ser_entry_tail(es[0]) + after)));
        lemma_skip_ws_all(nl_ind(2), seq!['{'] + (ser_entry_tail(es[0]) + after));
        let u = sp_skip_ws(t1);
        assert(u[0] == '{');
    }
}

/// An entry's text after its opening brace.
pub open spec fn ser_entry_tail(e: EntryView) -> Seq<char> {
    nl_ind(4) + jstr(seq!['p', 'a', 't', 'h']) + seq![':', ' '] + jstr(e.path) + seq![','] + nl_ind(
        4,
    ) + jstr(seq!['r', 'e', 's', 'u', 'm', 'e']) + seq![':', ' '] + ser_resume(e) + nl_ind(2)
        + seq!['}']
}

/// What follows the first entry in the entry list.
pub open spec fn ser_entries_tail(es: Seq<EntryView>) -> Seq<char> {
    if es.len() <= 1 {
        Seq::empty()
    } else {
        seq![','] + ser_entries(es.drop_first())
    }
}

/// Reads a whole export: the array's entries, with nothing but whitespace
/// allowed after the closing bracket.
pub open spec fn sp_export(s: Seq<char>) -> Option<Seq<EntryView>> {
    match sp_expect(s, '[') {
        Some(r) => {
            let u = sp_skip_ws(r);
            if u.len() > 0 && u[0] == ']' {
                if sp_skip_ws(u.drop_first()).len() == 0 {
                    Some(Seq::<EntryView>::empty())
                } else {
                    None::<Seq<EntryView>>
                }
            } else {
                match sp_entries(r) {
                    Some((es, r2)) => if sp_skip_ws(r2).len() == 0 {
                        Some(es)
                    } else {
                        None::<Seq<EntryView>>
                    },
                    None => None::<Seq<EntryView>>,
                }
            }
        },
        None => None::<Seq<EntryView>>,
    }
}

/// What one video contributes to the export.
pub open spec fn entry_view(v: Video) -> EntryView {
    EntryView {
        path: v.path@,
        title: v.resume.title@,
        description: v.resume.description@,
        keywords: v.resume.keywords@.map_values(|k: String| k@),
    }
}

/// Every character value lies in the character range; stated as a lemma so
/// that executable code can bring the bound into scope for a cast.
proof fn lemma_char_bounds(c: char)
    ensures
        0 <= c as int <= 0x10FFFF,
{
}

/// Appends a newline and `n` spaces.
fn push_nl_ind(out: &mut Vec<char>, n: usize)
    ensures
        final(out)@ == old(out)@ + nl_ind(n as int),
{
    out.push('\n');
    let mut i: usize = 0;
    while i < n
        invariant
            i <= n,
            out@ =~= old(out)@ + seq!['\n'] + Seq::new(i as nat, |j: int| ' '),
        decreases n - i,
    {
        out.push(' ');
        proof {
            assert(out@ =~= old(out)@ + seq!['\n'] + Seq::new((i + 1) as nat, |j: int| ' '));
        }
        i = i + 1;
    }
    proof {
        assert(out@ =~= old(out)@ + nl_ind(n as int));
    }
}

/// The lowercase hexadecimal digit character for a value below sixteen.
fn hex_digit_exec(d: u8) -> (c: char)
    requires
        d < 16,
    ensures
        c == hex_digit(d as int),
{
    match d {
        0 => '0',
        1 => '1',
        2 => '2',
        3 => '3',
        4 => '4',
        5 => '5',
        6 => '6',
        7 => '7',
        8 => '8',
        9 => '9',
        10 => 'a',
        11 => 'b',
        12 => 'c',
        13 => 'd',
        14 => 'e',
        _ => 'f',
    }
}

/// Appends a JSON string token holding `s`.
#[verifier::loop_isolation(false)]
fn push_jstr(out: &mut Vec<char>, s: &str)
    ensures
        final(out)@ == old(out)@ + jstr(s@),
{
    let chars = chars_vec(s);
    out.push('"');
    proof {
        assert(chars@.skip(0) =~= chars@);
    }
    let mut i: usize = 0;
    while i < chars.len()
        invariant
            i <= chars@.len(),
            out@ + esc(chars@.skip(i as int)) =~= old(out)@ + seq!['"'] + esc(chars@),
        decreases chars@.len() - i,
    {
        let ghost rest = chars@.skip(i as int);
        proof {
            assert(rest[0] == chars@[i as int]);
            assert(rest.drop_first() =~= chars@.skip(i + 1 as int));
        }
        let c = chars[i];
        if c == '"' {
            out.push('\\');
            out.push('"');
        } else if c == '\\' {
            out.push('\\');
            out.push('\\');
        } else if c == '\n' {
            out.push('\\');
            out.push('n');
        } else if c == '\r' {
            out.push('\\');
            out.push('r');
        } else if c == '\t' {
            out.push('\\');
            out.push('t');
        } else {
            proof {
                lemma_char_bounds(c);
            }
            let v = c as u32;
            proof {
                assert(v == c as int);
            }
            if v < 32 {
                out.push('\\');
                out.push('u');
                out.push('0');
                out.push('0');
                let hi = hex_digit_exec((v / 16) as u8);
                let lo = hex_digit_exec((v % 16) as u8);
                out.push(hi);
                out.push(lo);
            } else {
                out.push(c);
            }
        }
        proof {
            assert(out@ + esc(chars@.skip(i + 1 as int)) =~= old(out)@ + seq!['"'] + esc(
                chars@,
            ));
        }
        i = i + 1;
    }
    proof {
        assert(chars@.skip(chars@.len() as int) =~= Seq::<char>::empty());
        assert(out@ =~= old(out)@ + seq!['"'] + esc(chars@));
    }
    out.push('"');
    proof {
        assert(out@ =~= old(out)@ + jstr(s@));
    }
}

/// Appends the keywords array.
#[verifier::loop_isolation(false)]
fn push_keywords(out: &mut Vec<char>, ks: &Vec<String>)
    ensures
        final(out)@ == old(out)@ + ser_keywords(ks@.map_values(|k: String| k@)),
{
    let ghost views = ks@.map_values(|k: String| k@);
    if ks.len() == 0 {
        out.push('[');
        out.push(']');
        proof {
            assert(out@ =~= old(out)@ + ser_keywords(views));
        }
        return ;
    }
    out.push('[');
    proof {
        assert(views.skip(0) =~= views);
    }
    let mut i: usize = 0;
    while i < ks.len()
        invariant
            i <= ks@.len(),
            out@ + ser_kw_items(views.skip(i as int)) =~= old(out)@ + seq!['['] + ser_kw_items(
                views,
            ),
        decreases ks@.len() - i,
    {
        let ghost rest = views.skip(i as int);
        proof {
            assert(rest[0] == views[i as int]);
            assert(rest.drop_first() =~= views.skip(i + 1 as int));
        }
        push_nl_ind(out, 8);
        push_jstr(out, ks[i].as_str());
        if i + 1 < ks.len() {
            out.push(',');
            proof {
                assert(rest.len() >= 2);
                assert(ser_kw_items(rest) == nl_ind(8) + jstr(rest[0]) + seq![','] + ser_kw_items(
                    rest.drop_first(),
                ));
                assert(out@ + ser_kw_items(views.skip(i + 1 as int)) =~= old(out)@ + seq!['[']
                    + ser_kw_items(views));
            }
        } else {
            proof {
                assert(rest.len() == 1);
                assert(ser_kw_items(rest) == nl_ind(8) + jstr(rest[0]));
                assert(views.skip(i + 1 as int) =~= Seq::<Seq<char>>::empty());
                assert(out@ + ser_kw_items(views.skip(i + 1 as int)) =~= old(out)@ + seq!['[']
                    + ser_kw_items(views));
            }
        }
        i = i + 1;
    }
    proof {
        assert(views.skip(ks@.len() as int) =~= Seq::<Seq<char>>::empty());
        assert(out@ =~= old(out)@ + seq!['['] + ser_kw_items(views));
    }
    push_nl_ind(out, 6);
    out.push(']');
    proof {
        assert(out@ =~= old(out)@ + ser_keywords(views));
    }
}

/// Appends one exported entry.
#[verifier::rlimit(100)]
fn push_entry(out: &mut Vec<char>, v: &Video)
    ensures
        final(out)@ == old(out)@ + ser_entry(entry_view(*v)),
{
    proof {
        reveal_strlit("path");
        reveal_strlit("resume");
        reveal_strlit("title");
        reveal_strlit("description");
        reveal_strlit("keywords");
        assert("path"@ =~= seq!['p', 'a', 't', 'h']);
        assert("resume"@ =~= seq!['r', 'e', 's', 'u', 'm', 'e']);
        assert("title"@ =~= seq!['t', 'i', 't', 'l', 'e']);
        assert("description"@ =~= seq!['d', 'e', 's', 'c', 'r', 'i', 'p', 't', 'i', 'o', 'n']);
        assert("keywords"@ =~= seq!['k', 'e', 'y', 'w', 'o', 'r', 'd', 's']);
    }
    out.push('{');
    push_nl_ind(out, 4);
    push_jstr(out, "path");
    out.push(':');
    out.push(' ');
    push_jstr(out, v.path.as_str());
    out.push(',');
    push_nl_ind(out, 4);
    push_jstr(out, "resume");
    out.push(':');
    out.push(' ');
    let ghost before_resume = out@;
    out.push('{');
    push_nl_ind(out, 6);
    push_jstr(out, "title");
    out.push(':');
    out.push(' ');
    push_jstr(out, v.resume.title.as_str());
    out.push(',');
    push_nl_ind(out, 6);
    push_jstr(out, "description");
    out.push(':');
    out.push(' ');
    push_jstr(out, v.resume.description.as_str());
    out.push(',');
    push_nl_ind(out, 6);
    push_jstr(out, "keywords");
    out.push(':');
    out.push(' ');
    push_keywords(out, &v.resume.keywords);
    push_nl_ind(out, 4);
    out.push('}');
    proof {
        assert(out@ =~= before_resume + ser_resume(entry_view(*v)));
    }
    push_nl_ind(out, 2);
    out.push('}');
    proof {
        assert(out@ =~= old(out)@ + ser_entry(entry_view(*v)));
    }
}

/// The catalog's JSON export: a pretty-printed array holding, for every
/// video, its path and its resume — and nothing else.
#[verifier::loop_isolation(false)]
pub fn export_json_text(videos: &Vec<Video>) -> (r: String)
    ensures
        r@ == ser_export(export_views(videos@)),
{
    let ghost views = export_views(videos@);
    proof {
        assert(views.len() == videos@.len());
    }
    let mut out: Vec<char> = Vec::new();
    if videos.len() == 0 {
        out.push('[');
        out.push(']');
        proof {
            assert(out@ =~= ser_export(views));
        }
        return string_from_chars(&out);
    }
    out.push('[');
    proof {
        assert(views.skip(0) =~= views);
    }
    let mut i: usize = 0;
    while i < videos.len()
        invariant
            i <= videos@.len(),
            out@ + ser_entries(views.skip(i as int)) =~= seq!['['] + ser_entries(views),
        decreases videos@.len() - i,
    {
        let ghost rest = views.skip(i as int);
        proof {
            assert(rest[0] == views[i as int]);
            assert(views[i as int] == entry_view(videos@[i as int]));
            assert(rest.drop_first() =~= views.skip(i + 1 as int));
        }
        push_nl_ind(&mut out, 2);
        push_entry(&mut out, &videos[i]);
        if i + 1 < videos.len() {
            out.push(',');
            proof {
                assert(rest.len() >= 2);
                assert(ser_entries(rest) == nl_ind(2) + ser_entry(rest[0]) + seq![',']
                    + ser_entries(rest.drop_first()));
                assert(out@ + ser_entries(views.skip(i + 1 as int)) =~= seq!['['] + ser_entries(
                    views,
                ));
            }
        } else {
            proof {
                assert(rest.len() == 1);
                assert(ser_entries(rest) == nl_ind(2) + ser_entry(rest[0]));
                assert(views.skip(i + 1 as int) =~= Seq::<EntryView>::empty());
                assert(out@ + ser_entries(views.skip(i + 1 as int)) =~= seq!['['] + ser_entries(
                    views,
                ));
            }
        }
        i = i + 1;
    }
    proof {
        assert(views.skip(videos@.len() as int) =~= Seq::<EntryView>::empty());
        assert(out@ =~= seq!['['] + ser_entries(views));
    }
    push_nl_ind(&mut out, 0);
    out.push(']');
    proof {
        assert(out@ =~= ser_export(views));
    }
    string_from_chars(&out)
}

/// Exporting then re-parsing gives back every video's state at export time:
/// the reader of the export format, applied to the serialized catalog,
/// yields for every video exactly the path and resume it was exported with;
/// and under the catalog invariant a skipped video's entry carries empty
/// resume fields.  (The control-character hypothesis is met by every real
/// string; it only excludes abstract sequences whose elements lie outside
/// the character range.)
pub proof fn lemma_export_round_trip(vs: Seq<Video>)
    requires
        entries_ok(export_views(vs)),
        crate::catalog::videos_wf(vs),
    ensures
        sp_export(ser_export(export_views(vs))) == Some(export_views(vs)),
        export_views(vs).len() == vs.len(),
        forall|i: int|
            0 <= i < vs.len() ==> #[trigger] export_views(vs)[i] == entry_view(vs[i]),
        forall|i: int|
            0 <= i < vs.len() && (#[trigger] vs[i]).skip ==> {
                &&& export_views(vs)[i].title.len() == 0
                &&& export_views(vs)[i].description.len() == 0
                &&& export_views(vs)[i].keywords.len() == 0
            },
{
    lemma_export_parse(export_views(vs));
}

} // verus!
