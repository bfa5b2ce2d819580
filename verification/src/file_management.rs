//! File-name handling: splitting a path into parent, stem and extension,
//! building the renamed path, and the rename-template substitution engine.

use vstd::prelude::*;

use crate::text::{chars_vec, dec_digits, digit_char, string_from_chars, zero_pad};
use crate::video::Video;

verus! {

/// The index where a path's file name starts: right after the last path
/// separator, or zero when there is none.
pub open spec fn name_start(s: Seq<char>) -> int
    decreases s.len(),
{
    if s.len() == 0 {
        0
    } else if s.last() == '/' {
        s.len() as int
    } else {
        name_start(s.drop_last())
    }
}

/// The index of the last `'.'` in `f`, if any.
pub open spec fn last_dot(f: Seq<char>) -> Option<int>
    decreases f.len(),
{
    if f.len() == 0 {
        None::<int>
    } else if f.last() == '.' {
        Some(f.len() - 1)
    } else {
        last_dot(f.drop_last())
    }
}

/// A path's file name: what follows the last separator.
pub open spec fn spec_file_name(s: Seq<char>) -> Seq<char> {
    s.skip(name_start(s))
}

/// A file name's stem: what precedes its last dot, except that a lone
/// leading dot opens no extension.
pub open spec fn stem_of(f: Seq<char>) -> Seq<char> {
    match last_dot(f) {
        Some(i) => if i >= 1 {
            f.take(i)
        } else {
            f
        },
        None => f,
    }
}

/// A file name's extension: what follows its last dot, empty when there is
/// no extension.
pub open spec fn ext_of(f: Seq<char>) -> Seq<char> {
    match last_dot(f) {
        Some(i) => if i >= 1 {
            f.skip(i + 1)
        } else {
            Seq::empty()
        },
        None => Seq::empty(),
    }
}

/// A path's file stem.
pub open spec fn spec_file_stem(s: Seq<char>) -> Seq<char> {
    stem_of(spec_file_name(s))
}

/// The renamed path: the original parent (separator included), the new name,
/// a dot, and the original extension verbatim.
pub open spec fn spec_create_new_path(s: Seq<char>, new_name: Seq<char>) -> Seq<char> {
    s.take(name_start(s)) + new_name + seq!['.'] + ext_of(spec_file_name(s))
}

proof fn lemma_name_start(s: Seq<char>)
    ensures
        0 <= name_start(s) <= s.len(),
        forall|j: int| name_start(s) <= j < s.len() ==> s[j] != '/',
        name_start(s) > 0 ==> s[name_start(s) - 1] == '/',
    decreases s.len(),
{
    if s.len() == 0 {
    } else if s.last() == '/' {
    } else {
        lemma_name_start(s.drop_last());
        assert forall|j: int| name_start(s) <= j < s.len() implies s[j] != '/' by {
            if j < s.len() - 1 {
                assert(s[j] == s.drop_last()[j]);
            }
        }
    }
}

proof fn lemma_last_dot(f: Seq<char>)
    ensures
        match last_dot(f) {
            Some(i) => 0 <= i < f.len() && f[i] == '.' && (forall|j: int|
                i < j < f.len() ==> f[j] != '.'),
            None => forall|j: int| 0 <= j < f.len() ==> f[j] != '.',
        },
    decreases f.len(),
{
    if f.len() == 0 {
    } else if f.last() == '.' {
    } else {
        lemma_last_dot(f.drop_last());
        match last_dot(f) {
            Some(i) => {
                assert(f[i] == f.drop_last()[i]);
                assert forall|j: int| i < j < f.len() implies f[j] != '.' by {
                    if j < f.len() - 1 {
                        assert(f[j] == f.drop_last()[j]);
                    }
                }
            },
            None => {
                assert forall|j: int| 0 <= j < f.len() implies f[j] != '.' by {
                    if j < f.len() - 1 {
                        assert(f[j] == f.drop_last()[j]);
                    }
                }
            },
        }
    }
}

/// The index where the file name starts in `p`.
#[verifier::loop_isolation(false)]
fn find_name_start(p: &Vec<char>) -> (ns: usize)
    ensures
        ns == name_start(p@),
{
    proof {
        lemma_name_start(p@);
    }
    let mut k: usize = p.len();
    while k > 0 && p[k - 1] != '/'
        invariant
            0 <= k <= p@.len(),
            forall|j: int| k <= j < p@.len() ==> p@[j] != '/',
        decreases k,
    {
        k = k - 1;
    }
    proof {
        if k < name_start(p@) {
            assert(p@[name_start(p@) - 1] == '/');
        }
        if k > name_start(p@) {
            assert(p@[k - 1] != '/');
        }
    }
    k
}

/// The index right after the last dot of the file name part of `p`, when the
/// file name has an extension.
#[verifier::loop_isolation(false)]
fn find_ext_start(p: &Vec<char>, ns: usize) -> (r: Option<usize>)
    requires
        ns == name_start(p@),
    ensures
        match r {
            Some(e) => {
                &&& ns < e <= p@.len()
                &&& last_dot(spec_file_name(p@)) == Some(e - 1 - ns)
                &&& e - 1 - ns >= 1
            },
            None => match last_dot(spec_file_name(p@)) {
                Some(i) => i == 0,
                None => true,
            },
        },
{
    let ghost f = spec_file_name(p@);
    proof {
        lemma_last_dot(f);
        lemma_name_start(p@);
        assert(f.len() == p@.len() - ns);
        assert(forall|j: int| 0 <= j < f.len() ==> f[j] == p@[ns + j]);
    }
    let mut k: usize = p.len();
    while k > ns && p[k - 1] != '.'
        invariant
            ns <= k <= p@.len(),
            forall|j: int| k <= j < p@.len() ==> p@[j] != '.',
        decreases k,
    {
        k = k - 1;
    }
    if k > ns {
        // p[k - 1] is the last dot of the file name.
        proof {
            assert(f[k - 1 - ns] == p@[k - 1 as int]);
            match last_dot(f) {
                Some(i) => {
                    if i < k - 1 - ns {
                        assert(f[k - 1 - ns] != '.');
                    }
                    if i > k - 1 - ns {
                        assert(f[i] == p@[ns + i]);
                        assert(p@[ns + i] != '.');
                    }
                    assert(i == k - 1 - ns);
                },
                None => {
                    assert(f[k - 1 - ns] != '.');
                },
            }
        }
        if k - 1 > ns {
            Some(k)
        } else {
            None
        }
    } else {
        proof {
            match last_dot(f) {
                Some(i) => {
                    assert(p@[ns + i] == f[i]);
                },
                None => {},
            }
        }
        None
    }
}

/// The stem of the file name part of `p`.
fn file_stem_chars(p: &Vec<char>) -> (r: Vec<char>)
    ensures
        r@ == spec_file_stem(p@),
{
    proof {
        lemma_name_start(p@);
        lemma_last_dot(spec_file_name(p@));
    }
    let ns = find_name_start(p);
    let ext = find_ext_start(p, ns);
    let end = match ext {
        Some(e) => e - 1,
        None => p.len(),
    };
    let mut out: Vec<char> = Vec::new();
    let mut i: usize = ns;
    while i < end
        invariant
            ns <= i <= end <= p@.len(),
            out@ =~= p@.subrange(ns as int, i as int),
        decreases end - i,
    {
        out.push(p[i]);
        i = i + 1;
    }
    proof {
        let f = spec_file_name(p@);
        match last_dot(f) {
            Some(k) => {
                if k >= 1 {
                    assert(out@ =~= f.take(k));
                } else {
                    assert(out@ =~= f);
                }
            },
            None => {
                assert(out@ =~= f);
            },
        }
    }
    out
}

/// The file name of `file_path` without its extension: what stands between
/// the last separator and the last dot (a lone leading dot opens no
/// extension).
pub fn get_file_name(file_path: &str) -> (r: String)
    ensures
        r@ == spec_file_stem(file_path@),
{
    let p = chars_vec(file_path);
    let stem = file_stem_chars(&p);
    string_from_chars(&stem)
}

/// The renamed path for `file_path`: the original parent directory, then
/// `new_name`, then a dot and the original extension, kept verbatim with its
/// case.
pub fn create_new_path(file_path: &str, new_name: &str) -> (r: String)
    ensures
        r@ == spec_create_new_path(file_path@, new_name@),
{
    let p = chars_vec(file_path);
    proof {
        lemma_name_start(p@);
        lemma_last_dot(spec_file_name(p@));
    }
    let ns = find_name_start(&p);
    let ext = find_ext_start(&p, ns);
    let mut out: Vec<char> = Vec::new();
    let mut i: usize = 0;
    while i < ns
        invariant
            0 <= i <= ns <= p@.len(),
            out@ =~= p@.take(i as int),
        decreases ns - i,
    {
        out.push(p[i]);
        i = i + 1;
    }
    let nn = chars_vec(new_name);
    out.extend_from_slice(nn.as_slice());
    out.push('.');
    let ghost before_ext = out@;
    match ext {
        Some(e) => {
            let mut j: usize = e;
            while j < p.len()
                invariant
                    e <= j <= p@.len(),
                    out@ =~= before_ext + p@.subrange(e as int, j as int),
                decreases p@.len() - j,
            {
                out.push(p[j]);
                j = j + 1;
            }
            proof {
                let f = spec_file_name(p@);
                assert(p@.subrange(e as int, p@.len() as int) =~= f.skip(e - ns));
                assert(out@ =~= spec_create_new_path(p@, new_name@));
            }
        },
        None => {
            proof {
                let f = spec_file_name(p@);
                assert(ext_of(f) =~= Seq::<char>::empty());
                assert(out@ =~= spec_create_new_path(p@, new_name@));
            }
        },
    }
    string_from_chars(&out)
}

/// The values a rename template's tokens stand for.
pub struct TokenValues {
    pub year: int,
    pub month: int,
    pub day: int,
    pub title: Seq<char>,
    pub keywords: Seq<Seq<char>>,
    pub stem: Seq<char>,
}

/// The views of a list of strings.
pub open spec fn strings_views(ss: Seq<String>) -> Seq<Seq<char>> {
    ss.map_values(|s: String| s@)
}

/// The token values a video supplies: its creation date's fields, its
/// resume's title and keywords, and its path's file stem.
pub open spec fn token_values_of(v: Video) -> TokenValues {
    TokenValues {
        year: v.creation_date.year as int,
        month: v.creation_date.month as int,
        day: v.creation_date.day as int,
        title: v.resume.title@,
        keywords: strings_views(v.resume.keywords@),
        stem: spec_file_stem(v.path@),
    }
}

/// Whether `c` names a template token.
pub open spec fn is_token(c: char) -> bool {
    c == 'Y' || c == 'M' || c == 'D' || c == 'T' || c == 'K' || c == 'J' || c == 'F'
}

/// `parts` joined with `sep` between consecutive parts.
pub open spec fn join_with(parts: Seq<Seq<char>>, sep: Seq<char>) -> Seq<char>
    decreases parts.len(),
{
    if parts.len() == 0 {
        Seq::empty()
    } else if parts.len() == 1 {
        parts[0]
    } else {
        parts[0] + sep + join_with(parts.drop_first(), sep)
    }
}

/// The four-or-more-digit year: zero-padded to four digits, an explicit
/// minus sign ahead of a negative year.
pub open spec fn year_token(y: int) -> Seq<char> {
    if y >= 0 {
        zero_pad(dec_digits(y as nat), 4)
    } else {
        seq!['-'] + zero_pad(dec_digits((-y) as nat), 4)
    }
}

/// What a token stands for.
pub open spec fn token_value(c: char, v: TokenValues) -> Seq<char> {
    if c == 'Y' {
        year_token(v.year)
    } else if c == 'M' {
        zero_pad(dec_digits(v.month as nat), 2)
    } else if c == 'D' {
        zero_pad(dec_digits(v.day as nat), 2)
    } else if c == 'T' {
        v.title
    } else if c == 'K' {
        join_with(v.keywords, seq!['-'])
    } else if c == 'J' {
        join_with(v.keywords, seq![',', ' '])
    } else {
        v.stem
    }
}

/// The template with every token replaced by its value, in one left-to-right
/// pass: replacement text is emitted verbatim and never rescanned for
/// further tokens.
pub open spec fn subst(tmpl: Seq<char>, v: TokenValues) -> Seq<char>
    decreases tmpl.len(),
{
    if tmpl.len() == 0 {
        Seq::empty()
    } else if tmpl.len() >= 2 && tmpl[0] == '%' && is_token(tmpl[1]) {
        token_value(tmpl[1], v) + subst(tmpl.skip(2), v)
    } else {
        seq![tmpl[0]] + subst(tmpl.drop_first(), v)
    }
}

/// A token's replacement text is inserted verbatim and never rescanned:
/// substituting in the bare title template yields exactly the title, even
/// when the title itself spells further tokens.  With the other bare token
/// templates it is the same; substitution of one token is thus independent
/// of whatever tokens its value contains, and so of the order tokens are
/// handled in.
pub proof fn lemma_replacement_not_rescanned(v: TokenValues)
    ensures
        subst(seq!['%', 'T'], v) == v.title,
        subst(seq!['%', 'K'], v) == join_with(v.keywords, seq!['-']),
{
    let t = seq!['%', 'T'];
    assert(t.len() == 2 && t[0] == '%' && t[1] == 'T');
    assert(subst(t, v) == token_value('T', v) + subst(t.skip(2), v));
    assert(t.skip(2) =~= Seq::<char>::empty());
    assert(subst(t.skip(2), v) == Seq::<char>::empty());
    assert(subst(t, v) =~= v.title);
    let k = seq!['%', 'K'];
    assert(k.len() == 2 && k[0] == '%' && k[1] == 'K');
    assert(subst(k, v) == token_value('K', v) + subst(k.skip(2), v));
    assert(k.skip(2) =~= Seq::<char>::empty());
    assert(subst(k.skip(2), v) == Seq::<char>::empty());
    assert(subst(k, v) =~= join_with(v.keywords, seq!['-']));
}

/// A template without a percent sign is left unchanged by substitution.
pub proof fn lemma_subst_plain(tmpl: Seq<char>, v: TokenValues)
    requires
        forall|i: int| 0 <= i < tmpl.len() ==> tmpl[i] != '%',
    ensures
        subst(tmpl, v) == tmpl,
    decreases tmpl.len(),
{
    if tmpl.len() > 0 {
        assert forall|i: int| 0 <= i < tmpl.drop_first().len() implies tmpl.drop_first()[i]
            != '%' by {
            assert(tmpl.drop_first()[i] == tmpl[i + 1]);
        }
        lemma_subst_plain(tmpl.drop_first(), v);
        assert(subst(tmpl, v) =~= tmpl);
    } else {
        assert(subst(tmpl, v) =~= tmpl);
    }
}

/// A decimal digit as a character.
fn digit_char_exec(d: u8) -> (c: char)
    requires
        d < 10,
    ensures
        c == digit_char(d as int),
{
    match d {
        0 => '0',
        1 => '1',
        2 => '2',
        3 => '3',
        4 => '4',
        5 => '5',
        6 => '6',
        7 => '7',
        8 => '8',
        _ => '9',
    }
}

/// Appends the decimal digits of `n`.
fn push_dec_chars(out: &mut Vec<char>, n: u64)
    ensures
        final(out)@ == old(out)@ + dec_digits(n as nat),
    decreases n,
{
    if n >= 10 {
        push_dec_chars(out, n / 10);
    }
    let c = digit_char_exec((n % 10) as u8);
    out.push(c);
    proof {
        assert(out@ =~= old(out)@ + dec_digits(n as nat));
    }
}

proof fn lemma_dec_digits_len(n: nat)
    ensures
        n < 10 ==> dec_digits(n).len() == 1,
        10 <= n < 100 ==> dec_digits(n).len() == 2,
        100 <= n < 1000 ==> dec_digits(n).len() == 3,
        n >= 1000 ==> dec_digits(n).len() >= 4,
    decreases n,
{
    if n >= 10 {
        lemma_dec_digits_len(n / 10);
    }
}

/// The year token's characters: four digits, zero-padded, a minus sign
/// ahead when the year is negative.
fn year_chars(y: i32) -> (out: Vec<char>)
    ensures
        out@ == year_token(y as int),
{
    let mut out: Vec<char> = Vec::new();
    let n: u64;
    if y < 0 {
        out.push('-');
        n = (-(y as i64)) as u64;
    } else {
        n = y as u64;
    }
    let ghost head = out@;
    proof {
        lemma_dec_digits_len(n as nat);
    }
    if n < 10 {
        out.push('0');
        out.push('0');
        out.push('0');
    } else if n < 100 {
        out.push('0');
        out.push('0');
    } else if n < 1000 {
        out.push('0');
    }
    push_dec_chars(&mut out, n);
    proof {
        assert(out@ =~= head + zero_pad(dec_digits(n as nat), 4));
        if y >= 0 {
            assert(out@ =~= year_token(y as int));
        } else {
            assert(out@ =~= year_token(y as int));
        }
    }
    out
}

/// A one-or-two-digit value zero-padded to two digits.
fn pad2_chars(n: u8) -> (out: Vec<char>)
    requires
        n < 100,
    ensures
        out@ == zero_pad(dec_digits(n as nat), 2),
{
    let mut out: Vec<char> = Vec::new();
    proof {
        lemma_dec_digits_len(n as nat);
    }
    if n < 10 {
        out.push('0');
    }
    push_dec_chars(&mut out, n as u64);
    proof {
        assert(out@ =~= zero_pad(dec_digits(n as nat), 2));
    }
    out
}

/// The strings of `parts` joined with `sep` between consecutive parts.
#[verifier::loop_isolation(false)]
fn join_chars(parts: &Vec<String>, sep: &Vec<char>) -> (out: Vec<char>)
    ensures
        out@ == join_with(strings_views(parts@), sep@),
{
    let ghost views = strings_views(parts@);
    let mut out: Vec<char> = Vec::new();
    proof {
        assert(views.skip(0) =~= views);
        assert(Seq::<char>::empty() + join_with(views, sep@) =~= join_with(views, sep@));
    }
    let mut i: usize = 0;
    while i < parts.len()
        invariant
            i <= parts@.len(),
            join_with(views, sep@) =~= out@ + join_with(views.skip(i as int), sep@),
        decreases parts@.len() - i,
    {
        let ghost rest = views.skip(i as int);
        proof {
            assert(rest[0] == parts@[i as int]@);
            assert(rest.drop_first() =~= views.skip(i + 1 as int));
        }
        let part = chars_vec(parts[i].as_str());
        out.extend_from_slice(part.as_slice());
        if i + 1 < parts.len() {
            out.extend_from_slice(sep.as_slice());
        } else {
            proof {
                assert(rest.len() == 1);
            }
        }
        proof {
            if i + 1 < parts@.len() {
                assert(rest.len() >= 2);
                assert(join_with(rest, sep@) == rest[0] + sep@ + join_with(
                    rest.drop_first(),
                    sep@,
                ));
            }
            assert(join_with(views, sep@) =~= out@ + join_with(views.skip(i + 1 as int), sep@));
        }
        i = i + 1;
    }
    proof {
        assert(views.skip(parts@.len() as int) =~= Seq::<Seq<char>>::empty());
        assert(out@ =~= join_with(views, sep@));
    }
    out
}

/// The new file name for `video` under `template`: the template's tokens
/// `%Y` `%M` `%D` `%T` `%K` `%J` `%F` replaced in a single left-to-right
/// pass by the creation date's fields, the resume's title, its keywords
/// joined with `-` and with `, `, and the path's file stem; replacement
/// text is never rescanned for further tokens.
#[verifier::loop_isolation(false)]
pub fn create_new_file_name(video: &Video, template: &str) -> (r: String)
    requires
        video.creation_date.wf(),
    ensures
        r@ == subst(template@, token_values_of(*video)),
{
    let ghost tv = token_values_of(*video);
    let yv = year_chars(video.creation_date.year);
    let mv = pad2_chars(video.creation_date.month);
    let dv = pad2_chars(video.creation_date.day);
    proof {
        assert(mv@ == zero_pad(dec_digits(tv.month as nat), 2));
        assert(dv@ == zero_pad(dec_digits(tv.day as nat), 2));
    }
    let title = chars_vec(video.resume.title.as_str());
    let dash = vec!['-'];
    let comma = vec![',', ' '];
    proof {
        assert(dash@ =~= seq!['-']);
        assert(comma@ =~= seq![',', ' ']);
    }
    let kv = join_chars(&video.resume.keywords, &dash);
    let jv = join_chars(&video.resume.keywords, &comma);
    let pchars = chars_vec(video.path.as_str());
    let fv = file_stem_chars(&pchars);
    let t = chars_vec(template);
    let mut out: Vec<char> = Vec::new();
    proof {
        assert(t@.skip(0) =~= t@);
        assert(Seq::<char>::empty() + subst(t@, tv) =~= subst(t@, tv));
    }
    let mut i: usize = 0;
    while i < t.len()
        invariant
            i <= t@.len(),
            subst(t@, tv) =~= out@ + subst(t@.skip(i as int), tv),
        decreases t@.len() - i,
    {
        let ghost rest = t@.skip(i as int);
        proof {
            assert(rest[0] == t@[i as int]);
            if i + 1 < t@.len() {
                assert(rest[1] == t@[i + 1]);
            }
            assert(rest.drop_first() =~= t@.skip(i + 1 as int));
        }
        let c = t[i];
        let mut consumed_two = false;
        if c == '%' && i + 1 < t.len() {
            let c2 = t[i + 1];
            if c2 == 'Y' {
                out.extend_from_slice(yv.as_slice());
                consumed_two = true;
            } else if c2 == 'M' {
                out.extend_from_slice(mv.as_slice());
                consumed_two = true;
            } else if c2 == 'D' {
                out.extend_from_slice(dv.as_slice());
                consumed_two = true;
            } else if c2 == 'T' {
                out.extend_from_slice(title.as_slice());
                consumed_two = true;
            } else if c2 == 'K' {
                out.extend_from_slice(kv.as_slice());
                consumed_two = true;
            } else if c2 == 'J' {
                out.extend_from_slice(jv.as_slice());
                consumed_two = true;
            } else if c2 == 'F' {
                out.extend_from_slice(fv.as_slice());
                consumed_two = true;
            }
        }
        if consumed_two {
            proof {
                assert(rest.skip(2) =~= t@.skip(i + 2 as int));
                assert(subst(t@, tv) =~= out@ + subst(t@.skip(i + 2 as int), tv));
            }
            i = i + 2;
        } else {
            out.push(c);
            proof {
                assert(subst(rest, tv) == seq![rest[0]] + subst(rest.drop_first(), tv));
                assert(subst(t@, tv) =~= out@ + subst(t@.skip(i + 1 as int), tv));
            }
            i = i + 1;
        }
    }
    proof {
        assert(t@.skip(t@.len() as int) =~= Seq::<char>::empty());
        assert(out@ =~= subst(t@, tv));
    }
    string_from_chars(&out)
}

} // verus!
