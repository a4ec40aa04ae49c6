//! Untyped configuration entries and the file-format reader. A configuration
//! file is a two-level mapping written either as an indented block
//!
//! ```text
//! server:
//!   host: 0.0.0.0
//! ```
//!
//! or as a one-line flow mapping `server: {protocol: http, host: 0.0.0.0, port: 8080}`.
//! Blank lines and `#` comments (whole-line or after a value) are skipped, a
//! trailing carriage return on a line is dropped, and a scalar wrapped in
//! matching single or double quotes loses them (escapes inside are kept
//! verbatim). Mappings nested deeper than two levels are rejected loudly.
//! The reader turns the text into a flat list of leaf entries (key path plus
//! scalar value); its result is pinned, entry for entry, by a recursive
//! specification of the grammar.

use vstd::prelude::*;
use vstd::string::*;
use crate::error::AppError;
use crate::text::{trim, trim_spec};

verus! {

/// One leaf of the untyped configuration tree: a key path and a scalar value.
pub struct Entry {
    pub path: Vec<String>,
    pub value: String,
}

pub ghost struct EntryV {
    pub path: Seq<Seq<char>>,
    pub value: Seq<char>,
}

impl View for Entry {
    type V = EntryV;

    open spec fn view(&self) -> EntryV {
        EntryV { path: self.path.deep_view(), value: self.value@ }
    }
}

impl DeepView for Entry {
    type V = EntryV;

    open spec fn deep_view(&self) -> EntryV {
        self@
    }
}

pub open spec fn entries_view(s: Seq<Entry>) -> Seq<EntryV> {
    s.map_values(|e: Entry| e@)
}

/// Index of the first occurrence of `c` in `l`.
pub open spec fn find_ch(l: Seq<char>, c: char) -> Option<int>
    decreases l.len(),
{
    if l.len() == 0 {
        None
    } else if l[0] == c {
        Some(0int)
    } else {
        match find_ch(l.drop_first(), c) {
            None => None,
            Some(i) => Some(i + 1),
        }
    }
}

pub proof fn lemma_find_ch(l: Seq<char>, c: char)
    ensures
        match find_ch(l, c) {
            Some(i) => 0 <= i < l.len() && l[i] == c && forall|j: int| 0 <= j < i ==> l[j] != c,
            None => forall|j: int| 0 <= j < l.len() ==> l[j] != c,
        },
    decreases l.len(),
{
    if l.len() > 0 && l[0] != c {
        lemma_find_ch(l.drop_first(), c);
        match find_ch(l.drop_first(), c) {
            Some(k) => {
                assert(l[k + 1] == l.drop_first()[k]);
                assert forall|j: int| 0 <= j < k + 1 implies l[j] != c by {
                    if j > 0 {
                        assert(l.drop_first()[j - 1] != c);
                    }
                }
            },
            None => {
                assert forall|j: int| 0 <= j < l.len() implies l[j] != c by {
                    if j > 0 {
                        assert(l.drop_first()[j - 1] != c);
                    }
                }
            },
        }
    }
}

pub fn find_char(s: &str, c: char) -> (r: Option<usize>)
    ensures
        r matches Some(i) ==> find_ch(s@, c) == Some(i as int),
        r is None ==> find_ch(s@, c) is None,
        r matches Some(i) ==> i < s@.len(),
{
    proof {
        lemma_find_ch(s@, c);
    }
    let len: usize = s.unicode_len();
    let mut i: usize = 0;
    while i < len
        invariant
            len == s@.len(),
            i <= len,
            forall|j: int| 0 <= j < i ==> s@[j] != c,
            match find_ch(s@, c) {
                Some(k) => 0 <= k < s@.len() && s@[k] == c && forall|j: int|
                    0 <= j < k ==> s@[j] != c,
                None => forall|j: int| 0 <= j < s@.len() ==> s@[j] != c,
            },
        decreases len - i,
    {
        if s.get_char(i) == c {
            return Some(i);
        }
        i = i + 1;
    }
    None
}

/// `l` without a trailing carriage return, so CRLF files read as LF files.
pub open spec fn strip_cr(l: Seq<char>) -> Seq<char> {
    if l.len() > 0 && l.last() == '\r' {
        l.drop_last()
    } else {
        l
    }
}

/// Whether an inline comment starts at `j`: a `#` at the start (when the text
/// before it was blank) or one preceded by a space.
pub open spec fn hash_starts_at(s: Seq<char>, prev_space: bool, j: int) -> bool {
    s[j] == '#' && (if j == 0 {
        prev_space
    } else {
        s[j - 1] == ' '
    })
}

/// Index of the first inline-comment `#` in `s`.
pub open spec fn find_hash(s: Seq<char>, prev_space: bool) -> Option<int>
    decreases s.len(),
{
    if s.len() == 0 {
        None
    } else if s[0] == '#' && prev_space {
        Some(0int)
    } else {
        match find_hash(s.drop_first(), s[0] == ' ') {
            None => None,
            Some(i) => Some(i + 1),
        }
    }
}

pub proof fn lemma_find_hash(s: Seq<char>, prev_space: bool)
    ensures
        match find_hash(s, prev_space) {
            Some(i) => 0 <= i < s.len() && hash_starts_at(s, prev_space, i) && forall|j: int|
                0 <= j < i ==> !hash_starts_at(s, prev_space, j),
            None => forall|j: int| 0 <= j < s.len() ==> !hash_starts_at(s, prev_space, j),
        },
    decreases s.len(),
{
    if s.len() > 0 && !(s[0] == '#' && prev_space) {
        let t = s.drop_first();
        lemma_find_hash(t, s[0] == ' ');
        match find_hash(t, s[0] == ' ') {
            Some(k) => {
                assert(t[k] == s[k + 1]);
                if k > 0 {
                    assert(t[k - 1] == s[k]);
                }
                assert(hash_starts_at(s, prev_space, k + 1));
                assert forall|j: int| 0 <= j < k + 1 implies !hash_starts_at(
                    s,
                    prev_space,
                    j,
                ) by {
                    if j > 0 {
                        assert(!hash_starts_at(t, s[0] == ' ', j - 1));
                        assert(t[j - 1] == s[j]);
                        if j > 1 {
                            assert(t[j - 2] == s[j - 1]);
                        }
                    }
                }
            },
            None => {
                assert forall|j: int| 0 <= j < s.len() implies !hash_starts_at(
                    s,
                    prev_space,
                    j,
                ) by {
                    if j > 0 {
                        assert(!hash_starts_at(t, s[0] == ' ', j - 1));
                        assert(t[j - 1] == s[j]);
                        if j > 1 {
                            assert(t[j - 2] == s[j - 1]);
                        }
                    }
                }
            },
        }
    }
}

/// The value text before any inline comment.
pub open spec fn cut_comment(s: Seq<char>) -> Seq<char> {
    match find_hash(s, true) {
        None => s,
        Some(i) => s.take(i),
    }
}

fn cut_comment_exec(s: &str) -> (r: String)
    ensures
        r@ == cut_comment(s@),
{
    let len: usize = s.unicode_len();
    let mut i: usize = 0;
    while i < len
        invariant
            len == s@.len(),
            i <= len,
            forall|j: int| 0 <= j < i ==> !hash_starts_at(s@, true, j),
        decreases len - i,
    {
        let c: char = s.get_char(i);
        let prev_ok: bool = if i == 0 {
            true
        } else {
            s.get_char(i - 1) == ' '
        };
        if c == '#' && prev_ok {
            proof {
                lemma_find_hash(s@, true);
                assert(hash_starts_at(s@, true, i as int));
                assert(find_hash(s@, true) == Some(i as int));
            }
            let head: &str = s.substring_char(0, i);
            proof {
                assert(head@ =~= s@.take(i as int));
            }
            return String::from_str(head);
        }
        i = i + 1;
    }
    proof {
        lemma_find_hash(s@, true);
        assert(find_hash(s@, true) is None);
    }
    String::from_str(s)
}

/// A scalar wrapped in matching single or double quotes loses them; quote and
/// escape characters inside are kept verbatim.
pub open spec fn unquote(v: Seq<char>) -> Seq<char> {
    if v.len() >= 2 && ((v[0] == '"' && v.last() == '"') || (v[0] == '\'' && v.last() == '\'')) {
        v.subrange(1, v.len() - 1)
    } else {
        v
    }
}

fn unquote_exec(v: &str) -> (r: String)
    ensures
        r@ == unquote(v@),
{
    let len: usize = v.unicode_len();
    if len >= 2 {
        let first: char = v.get_char(0);
        let last: char = v.get_char(len - 1);
        if (first == '"' && last == '"') || (first == '\'' && last == '\'') {
            let inner: &str = v.substring_char(1, len - 1);
            proof {
                assert(inner@ =~= v@.subrange(1, v@.len() - 1));
            }
            return String::from_str(inner);
        }
    }
    String::from_str(v)
}

/// One `key: value` item of a flow mapping, placed under section `sec`.
pub open spec fn flow_one(sec: Seq<char>, item: Seq<char>) -> Option<EntryV> {
    match find_ch(item, ':') {
        None => None,
        Some(ci) => {
            let key = trim_spec(item.take(ci));
            let val = trim_spec(item.skip(ci + 1));
            if key.len() > 0 && val.len() > 0 {
                Some(EntryV { path: seq![sec, key], value: unquote(val) })
            } else {
                None
            }
        },
    }
}

/// The items of a flow mapping body, split on commas.
pub open spec fn flow_items(sec: Seq<char>, inner: Seq<char>) -> Option<Seq<EntryV>>
    decreases inner.len(),
{
    match find_ch(inner, ',') {
        None => match flow_one(sec, inner) {
            None => None,
            Some(e) => Some(seq![e]),
        },
        Some(ci) => if 0 <= ci < inner.len() {
            match flow_one(sec, inner.take(ci)) {
                None => None,
                Some(e) => match flow_items(sec, inner.skip(ci + 1)) {
                    None => None,
                    Some(rest) => Some(seq![e] + rest),
                },
            }
        } else {
            None
        },
    }
}

/// What one carriage-return-stripped line contributes: entries it yields and
/// the open section after it. `None` is a parse error: a content line without
/// a colon or key, an indented line outside a section, or a nesting deeper
/// than two levels.
pub open spec fn line_core(l: Seq<char>, cur: Option<Seq<char>>) -> Option<
    (Seq<EntryV>, Option<Seq<char>>),
> {
    let t = trim_spec(l);
    let indented = l.len() > 0 && l[0] == ' ';
    if t.len() == 0 || t[0] == '#' {
        Some((Seq::empty(), cur))
    } else {
        match find_ch(l, ':') {
            None => None,
            Some(ci) => {
                let key = trim_spec(l.take(ci));
                let rest = trim_spec(cut_comment(trim_spec(l.skip(ci + 1))));
                if key.len() == 0 {
                    None
                } else if !indented {
                    if rest.len() == 0 {
                        Some((Seq::empty(), Some(key)))
                    } else if rest[0] == '{' {
                        if rest.len() >= 2 && rest.last() == '}' {
                            match flow_items(key, rest.subrange(1, rest.len() - 1)) {
                                None => None,
                                Some(es) => Some((es, None)),
                            }
                        } else {
                            None
                        }
                    } else {
                        Some((seq![EntryV { path: seq![key], value: unquote(rest) }], None))
                    }
                } else {
                    match cur {
                        None => None,
                        Some(sec) => if rest.len() == 0 {
                            None
                        } else {
                            Some(
                                (seq![EntryV { path: seq![sec, key], value: unquote(rest) }], cur),
                            )
                        },
                    }
                }
            },
        }
    }
}

/// What one raw line contributes, after dropping a trailing carriage return.
pub open spec fn line_step(l: Seq<char>, cur: Option<Seq<char>>) -> Option<
    (Seq<EntryV>, Option<Seq<char>>),
> {
    line_core(strip_cr(l), cur)
}

/// The entries of a sequence of lines, threading the open section through.
pub open spec fn parse_acc(lines: Seq<Seq<char>>, cur: Option<Seq<char>>) -> Option<Seq<EntryV>>
    decreases lines.len(),
{
    if lines.len() == 0 {
        Some(Seq::empty())
    } else {
        match line_step(lines[0], cur) {
            None => None,
            Some(step) => match parse_acc(lines.drop_first(), step.1) {
                None => None,
                Some(rest) => Some(step.0 + rest),
            },
        }
    }
}

/// The lines of `s`, split on newline characters.
pub open spec fn lines_acc(s: Seq<char>, cur: Seq<char>) -> Seq<Seq<char>>
    decreases s.len(),
{
    if s.len() == 0 {
        seq![cur]
    } else if s[0] == '\n' {
        seq![cur] + lines_acc(s.drop_first(), Seq::empty())
    } else {
        lines_acc(s.drop_first(), cur.push(s[0]))
    }
}

pub open spec fn lines_of(s: Seq<char>) -> Seq<Seq<char>> {
    lines_acc(s, Seq::empty())
}

/// The entries denoted by a whole configuration text, or `None` if the text
/// is not in the supported shape.
pub open spec fn parse_spec(s: Seq<char>) -> Option<Seq<EntryV>> {
    parse_acc(lines_of(s), None)
}

pub fn split_lines(s: &str) -> (r: Vec<String>)
    ensures
        r.deep_view() == lines_of(s@),
{
    let len: usize = s.unicode_len();
    let mut acc: Vec<String> = Vec::new();
    let mut cur: String = String::new();
    let mut i: usize = 0;
    proof {
        assert(s@.skip(0) =~= s@);
        assert(acc.deep_view() =~= Seq::<Seq<char>>::empty());
        assert(Seq::<Seq<char>>::empty() + lines_acc(s@, Seq::empty()) =~= lines_acc(
            s@,
            Seq::empty(),
        ));
    }
    while i < len
        invariant
            len == s@.len(),
            i <= len,
            lines_of(s@) == acc.deep_view() + lines_acc(s@.skip(i as int), cur@),
        decreases len - i,
    {
        let c: char = s.get_char(i);
        proof {
            assert(s@.skip(i as int).drop_first() =~= s@.skip(i + 1));
            assert(s@.skip(i as int)[0] == s@[i as int]);
        }
        if c == '\n' {
            let ghost old_deep = acc.deep_view();
            let ghost old_cur = cur@;
            let done: String = cur;
            cur = String::new();
            acc.push(done);
            proof {
                assert(acc.deep_view() =~= old_deep.push(old_cur));
                assert(old_deep.push(old_cur) + lines_acc(s@.skip(i + 1), Seq::empty()) =~=
                    old_deep + (seq![old_cur] + lines_acc(s@.skip(i + 1), Seq::empty())));
            }
        } else {
            crate::text::push_char(&mut cur, c);
        }
        i = i + 1;
    }
    proof {
        assert(s@.skip(len as int) =~= Seq::<char>::empty());
    }
    let ghost old_deep = acc.deep_view();
    let ghost old_cur = cur@;
    acc.push(cur);
    proof {
        assert(acc.deep_view() =~= old_deep.push(old_cur));
        assert(old_deep + seq![old_cur] =~= old_deep.push(old_cur));
    }
    acc
}

/// The message of every parse failure: a fixed prefix naming the failure,
/// then the offending text.
pub open spec fn parse_msg(detail: Seq<char>) -> Seq<char> {
    "configuration parse error near: "@ + detail
}

/// A configuration-parse failure: a `Config` kind whose message carries the
/// parse-failure prefix.
pub open spec fn is_parse_error(e: &AppError) -> bool {
    e matches AppError::Config(m) && m@.len() >= "configuration parse error near: "@.len()
        && m@.take("configuration parse error near: "@.len() as int)
        == "configuration parse error near: "@
}

fn config_error(line: &str) -> (r: AppError)
    ensures
        r matches AppError::Config(m) && m@ == parse_msg(line@),
        is_parse_error(&r),
{
    let mut m: String = String::from_str("configuration parse error near: ");
    m.append(line);
    proof {
        assert(("configuration parse error near: "@ + line@).take(
            "configuration parse error near: "@.len() as int,
        ) =~= "configuration parse error near: "@);
    }
    AppError::Config(m)
}

fn parse_flow(sec: &str, inner: &str) -> (r: Result<Vec<Entry>, AppError>)
    ensures
        r matches Ok(v) ==> flow_items(sec@, inner@) == Some(entries_view(v@)),
        r is Err <==> flow_items(sec@, inner@) is None,
        r matches Err(e) ==> is_parse_error(&e),
    decreases inner@.len(),
{
    let ilen: usize = inner.unicode_len();
    match find_char(inner, ',') {
        None => {
            match parse_flow_one(sec, inner) {
                Ok(e) => {
                    let mut v: Vec<Entry> = Vec::new();
                    v.push(e);
                    proof {
                        assert(entries_view(v@) =~= seq![v@[0]@]);
                    }
                    Ok(v)
                },
                Err(e) => Err(e),
            }
        },
        Some(ci) => {
            let head: &str = inner.substring_char(0, ci);
            let tail: &str = inner.substring_char(ci + 1, ilen);
            proof {
                lemma_find_ch(inner@, ',');
                assert(head@ =~= inner@.take(ci as int));
                assert(tail@ =~= inner@.skip(ci + 1));
            }
            match parse_flow_one(sec, head) {
                Ok(e) => {
                    match parse_flow(sec, tail) {
                        Ok(rest) => {
                            let ghost e_snap = e@;
                            let ghost rest_snap = rest@;
                            let mut v: Vec<Entry> = Vec::new();
                            v.push(e);
                            let mut r2: Vec<Entry> = rest;
                            v.append(&mut r2);
                            proof {
                                assert(v@ =~= seq![v@[0]] + rest_snap);
                                assert(entries_view(v@) =~= seq![e_snap] + entries_view(
                                    rest_snap,
                                ));
                            }
                            Ok(v)
                        },
                        Err(e2) => Err(e2),
                    }
                },
                Err(e) => Err(e),
            }
        },
    }
}

fn parse_flow_one(sec: &str, item: &str) -> (r: Result<Entry, AppError>)
    ensures
        r matches Ok(e) ==> flow_one(sec@, item@) == Some(e@),
        r is Err <==> flow_one(sec@, item@) is None,
        r matches Err(e) ==> is_parse_error(&e),
{
    let ilen: usize = item.unicode_len();
    match find_char(item, ':') {
        None => Err(config_error(item)),
        Some(ci) => {
            proof {
                lemma_find_ch(item@, ':');
            }
            let key: String = trim(item.substring_char(0, ci));
            let val: String = trim(item.substring_char(ci + 1, ilen));
            proof {
                assert(item@.subrange(0, ci as int) =~= item@.take(ci as int));
                assert(item@.subrange(ci + 1, ilen as int) =~= item@.skip(ci + 1));
            }
            if key.as_str().unicode_len() > 0 && val.as_str().unicode_len() > 0 {
                let value: String = unquote_exec(val.as_str());
                let mut path: Vec<String> = Vec::new();
                path.push(String::from_str(sec));
                path.push(key);
                let e = Entry { path, value };
                proof {
                    assert(e@.path =~= seq![sec@, trim_spec(item@.take(ci as int))]);
                }
                Ok(e)
            } else {
                Err(config_error(item))
            }
        },
    }
}

fn parse_line(line: &str, cur: &Option<String>) -> (r: Result<
    (Vec<Entry>, Option<String>),
    AppError,
>)
    ensures
        r matches Ok(p) ==> line_step(line@, cur.deep_view()) == Some(
            (entries_view(p.0@), p.1.deep_view()),
        ),
        r is Err <==> line_step(line@, cur.deep_view()) is None,
        r matches Err(e) ==> is_parse_error(&e),
{
    let llen0: usize = line.unicode_len();
    let l: &str = if llen0 > 0 && line.get_char(llen0 - 1) == '\r' {
        line.substring_char(0, llen0 - 1)
    } else {
        line
    };
    proof {
        assert(l@ =~= strip_cr(line@));
    }
    let llen: usize = l.unicode_len();
    let t: String = trim(l);
    let tlen: usize = t.as_str().unicode_len();
    if tlen == 0 || t.as_str().get_char(0) == '#' {
        let cur2: Option<String> = match cur {
            Some(s) => Some(s.clone()),
            None => None,
        };
        let v: Vec<Entry> = Vec::new();
        proof {
            assert(entries_view(v@) =~= Seq::<EntryV>::empty());
        }
        return Ok((v, cur2));
    }
    let indented: bool = llen > 0 && l.get_char(0) == ' ';
    match find_char(l, ':') {
        None => Err(config_error(l)),
        Some(ci) => {
            proof {
                lemma_find_ch(l@, ':');
            }
            let key: String = trim(l.substring_char(0, ci));
            let rest0: String = trim(l.substring_char(ci + 1, llen));
            let cut: String = cut_comment_exec(rest0.as_str());
            let rest: String = trim(cut.as_str());
            proof {
                assert(l@.subrange(0, ci as int) =~= l@.take(ci as int));
                assert(l@.subrange(ci + 1, llen as int) =~= l@.skip(ci + 1));
            }
            let klen: usize = key.as_str().unicode_len();
            let rlen: usize = rest.as_str().unicode_len();
            if klen == 0 {
                return Err(config_error(l));
            }
            if !indented {
                if rlen == 0 {
                    let v: Vec<Entry> = Vec::new();
                    proof {
                        assert(entries_view(v@) =~= Seq::<EntryV>::empty());
                    }
                    Ok((v, Some(key)))
                } else if rest.as_str().get_char(0) == '{' {
                    if rlen >= 2 && rest.as_str().get_char(rlen - 1) == '}' {
                        let inner: &str = rest.as_str().substring_char(1, rlen - 1);
                        proof {
                            assert(inner@ =~= rest@.subrange(1, rest@.len() - 1));
                        }
                        match parse_flow(key.as_str(), inner) {
                            Ok(v) => Ok((v, None)),
                            Err(e) => Err(e),
                        }
                    } else {
                        Err(config_error(l))
                    }
                } else {
                    let value: String = unquote_exec(rest.as_str());
                    let mut path: Vec<String> = Vec::new();
                    path.push(key);
                    let e = Entry { path, value };
                    let mut v: Vec<Entry> = Vec::new();
                    v.push(e);
                    proof {
                        assert(v@[0]@.path =~= seq![trim_spec(l@.take(ci as int))]);
                        assert(entries_view(v@) =~= seq![v@[0]@]);
                    }
                    Ok((v, None))
                }
            } else {
                match cur {
                    None => Err(config_error(l)),
                    Some(sec) => {
                        if rlen == 0 {
                            Err(config_error(l))
                        } else {
                            let value: String = unquote_exec(rest.as_str());
                            let mut path: Vec<String> = Vec::new();
                            path.push(sec.clone());
                            path.push(key);
                            let e = Entry { path, value };
                            let mut v: Vec<Entry> = Vec::new();
                            v.push(e);
                            let cur2: Option<String> = Some(sec.clone());
                            proof {
                                assert(v@[0]@.path =~= seq![
                                    sec@,
                                    trim_spec(l@.take(ci as int)),
                                ]);
                                assert(entries_view(v@) =~= seq![v@[0]@]);
                            }
                            Ok((v, cur2))
                        }
                    },
                }
            }
        },
    }
}

/// Reads a configuration text into its leaf entries. Returns exactly the
/// entries the grammar specification assigns to the text, or a
/// configuration-parse error where the specification rejects it.
pub fn parse_entries(text: &str) -> (r: Result<Vec<Entry>, AppError>)
    ensures
        r matches Ok(v) ==> parse_spec(text@) == Some(entries_view(v@)),
        r is Err <==> parse_spec(text@) is None,
        r matches Err(e) ==> is_parse_error(&e),
{
    let lines: Vec<String> = split_lines(text);
    let n: usize = lines.len();
    let mut acc: Vec<Entry> = Vec::new();
    let mut cur: Option<String> = None;
    let mut i: usize = 0;
    proof {
        assert(lines.deep_view().skip(0) =~= lines.deep_view());
        assert(entries_view(acc@) =~= Seq::<EntryV>::empty());
        assert(match parse_acc(lines.deep_view(), None) {
            None => true,
            Some(rest) => entries_view(acc@) + rest =~= rest,
        });
    }
    while i < n
        invariant
            n == lines@.len(),
            i <= n,
            lines.deep_view() == lines_of(text@),
            lines.deep_view().len() == n,
            match parse_acc(lines.deep_view().skip(i as int), cur.deep_view()) {
                None => parse_spec(text@) is None,
                Some(rest) => parse_spec(text@) == Some(entries_view(acc@) + rest),
            },
        decreases n - i,
    {
        proof {
            assert(lines.deep_view().skip(i as int)[0] == lines@[i as int].deep_view());
            assert(lines.deep_view().skip(i as int).drop_first() =~= lines.deep_view().skip(
                i + 1,
            ));
        }
        let line: &String = &lines[i];
        match parse_line(line.as_str(), &cur) {
            Ok(p) => {
                let (mut es, cur2) = p;
                let ghost old_acc = acc@;
                let ghost es_snap = es@;
                acc.append(&mut es);
                cur = cur2;
                proof {
                    assert(entries_view(acc@) =~= entries_view(old_acc) + entries_view(es_snap));
                    assert(match parse_acc(lines.deep_view().skip(i + 1), cur.deep_view()) {
                        None => true,
                        Some(rest) => entries_view(acc@) + rest =~= entries_view(old_acc) + (
                        entries_view(es_snap) + rest),
                    });
                }
            },
            Err(e) => {
                return Err(e);
            },
        }
        i = i + 1;
    }
    proof {
        assert(lines.deep_view().skip(n as int) =~= Seq::<Seq<char>>::empty());
        assert(entries_view(acc@) + Seq::<EntryV>::empty() =~= entries_view(acc@));
    }
    Ok(acc)
}

} // verus!
