//! Reading lists: one credential, or one proxy address, to a line, with
//! blank lines passed over.

use vstd::prelude::*;

verus! {

/// Whether `c` is white space: one of the twenty-five characters with
/// Unicode's property `White_Space`, which are the ones that trimming
/// removes.
pub open spec fn white_space(c: char) -> bool {
    let n = c as u32;
    ||| 0x0009 <= n <= 0x000d
    ||| n == 0x0020
    ||| n == 0x0085
    ||| n == 0x00a0
    ||| n == 0x1680
    ||| 0x2000 <= n <= 0x200a
    ||| n == 0x2028
    ||| n == 0x2029
    ||| n == 0x202f
    ||| n == 0x205f
    ||| n == 0x3000
}

/// `s` without the white space it begins with.
pub open spec fn trim_start_of(s: Seq<char>) -> Seq<char>
    decreases s.len(),
{
    if s.len() > 0 && white_space(s.first()) {
        trim_start_of(s.drop_first())
    } else {
        s
    }
}

/// `s` without the white space it ends with.
pub open spec fn trim_end_of(s: Seq<char>) -> Seq<char>
    decreases s.len(),
{
    if s.len() > 0 && white_space(s.last()) {
        trim_end_of(s.drop_last())
    } else {
        s
    }
}

/// `s` without the white space around it.
pub open spec fn trimmed(s: Seq<char>) -> Seq<char> {
    trim_end_of(trim_start_of(s))
}

/// A line that holds nothing but white space.
pub open spec fn is_blank(s: Seq<char>) -> bool {
    trimmed(s).len() == 0
}

/// The text of each string, in order.
pub open spec fn texts(strings: Seq<String>) -> Seq<Seq<char>> {
    Seq::new(strings.len(), |i: int| strings[i]@)
}

/// The credentials that a list of lines holds: each line trimmed, the blank
/// ones left out, the order kept.
pub open spec fn credentials_in(lines: Seq<Seq<char>>) -> Seq<Seq<char>>
    decreases lines.len(),
{
    if lines.len() == 0 {
        Seq::empty()
    } else if is_blank(lines.last()) {
        credentials_in(lines.drop_last())
    } else {
        credentials_in(lines.drop_last()).push(trimmed(lines.last()))
    }
}

/// The proxy addresses that a list of lines holds: the lines that are not
/// blank, each as it stands, the order kept.
pub open spec fn proxies_in(lines: Seq<Seq<char>>) -> Seq<Seq<char>>
    decreases lines.len(),
{
    if lines.len() == 0 {
        Seq::empty()
    } else if is_blank(lines.last()) {
        proxies_in(lines.drop_last())
    } else {
        proxies_in(lines.drop_last()).push(lines.last())
    }
}

/// `str::trim`: the slice of `line` between its leading and its trailing
/// white space. Claimed: its text is `trimmed` of the line's text, with
/// white space being the characters of `white_space`.
#[verifier::external_body]
fn trim(line: &str) -> (core: &str)
    ensures
        core@ == trimmed(line@),
{
    line.trim()
}

/// Whether `c` is white space.
pub fn is_white_space(c: char) -> (white: bool)
    ensures
        white == white_space(c),
{
    let n: u32 = c as u32;
    (0x0009 <= n && n <= 0x000d) || n == 0x0020 || n == 0x0085 || n == 0x00a0 || n == 0x1680 || (
    0x2000 <= n && n <= 0x200a) || n == 0x2028 || n == 0x2029 || n == 0x202f || n == 0x205f || n
        == 0x3000
}

/// The credential on one line: the line trimmed, or nothing where the line
/// is blank.
pub fn credential_of(line: &str) -> (credential: Option<String>)
    ensures
        match credential {
            Some(text) => !is_blank(line@) && text@ == trimmed(line@),
            None => is_blank(line@),
        },
{
    let core = trim(line);
    if core.is_empty() {
        None
    } else {
        Some(core.to_owned())
    }
}

/// The credentials on the lines of an input.
pub fn credentials(lines: &Vec<String>) -> (kept: Vec<String>)
    ensures
        texts(kept@) == credentials_in(texts(lines@)),
{
    let n: usize = lines.len();
    let mut kept: Vec<String> = Vec::new();
    let mut i: usize = 0;
    while i < n
        invariant
            i <= n,
            n == lines@.len(),
            texts(kept@) == credentials_in(texts(lines@).take(i as int)),
        decreases n - i,
    {
        let ghost before = texts(kept@);
        proof {
            assert(texts(lines@).take(i + 1).drop_last() =~= texts(lines@).take(i as int));
            assert(texts(lines@).take(i + 1).last() == lines@[i as int]@);
        }
        match credential_of(lines[i].as_str()) {
            Some(text) => {
                kept.push(text);
                assert(texts(kept@) =~= before.push(text@));
            },
            None => {},
        }
        i = i + 1;
    }
    proof {
        assert(texts(lines@).take(n as int) =~= texts(lines@));
    }
    kept
}

/// The proxy addresses on the lines of a proxy list.
pub fn proxy_addresses(lines: &Vec<String>) -> (kept: Vec<String>)
    ensures
        texts(kept@) == proxies_in(texts(lines@)),
{
    let n: usize = lines.len();
    let mut kept: Vec<String> = Vec::new();
    let mut i: usize = 0;
    while i < n
        invariant
            i <= n,
            n == lines@.len(),
            texts(kept@) == proxies_in(texts(lines@).take(i as int)),
        decreases n - i,
    {
        let ghost before = texts(kept@);
        proof {
            assert(texts(lines@).take(i + 1).drop_last() =~= texts(lines@).take(i as int));
            assert(texts(lines@).take(i + 1).last() == lines@[i as int]@);
        }
        if !trim(lines[i].as_str()).is_empty() {
            let line = lines[i].clone();
            kept.push(line);
            assert(texts(kept@) =~= before.push(line@));
        }
        i = i + 1;
    }
    proof {
        assert(texts(lines@).take(n as int) =~= texts(lines@));
    }
    kept
}

/// What is left when leading white space is gone does not begin with any.
pub proof fn lemma_trim_start(s: Seq<char>)
    ensures
        trim_start_of(s).len() <= s.len(),
        trim_start_of(s).len() > 0 ==> !white_space(trim_start_of(s).first()),
    decreases s.len(),
{
    if s.len() > 0 && white_space(s.first()) {
        lemma_trim_start(s.drop_first());
    }
}

/// What is left when trailing white space is gone is a prefix that does not
/// end with any.
pub proof fn lemma_trim_end(s: Seq<char>)
    ensures
        trim_end_of(s).len() <= s.len(),
        trim_end_of(s) == s.take(trim_end_of(s).len() as int),
        trim_end_of(s).len() > 0 ==> !white_space(trim_end_of(s).last()),
    decreases s.len(),
{
    if s.len() > 0 && white_space(s.last()) {
        let front = s.drop_last();
        lemma_trim_end(front);
        assert(front.take(trim_end_of(front).len() as int) =~= s.take(
            trim_end_of(front).len() as int,
        ));
    } else {
        assert(s.take(s.len() as int) =~= s);
    }
}

/// A text that neither begins nor ends with white space is its own trimmed
/// form.
pub proof fn law_clean_text_is_kept(s: Seq<char>)
    requires
        s.len() > 0,
        !white_space(s.first()),
        !white_space(s.last()),
    ensures
        trimmed(s) == s,
        !is_blank(s),
{
}

/// A trimmed text is never longer than the text, has no white space at
/// either end, and stays as it is when trimmed again.
pub proof fn law_trimmed_is_clean(s: Seq<char>)
    ensures
        trimmed(s).len() <= s.len(),
        trimmed(s).len() > 0 ==> !white_space(trimmed(s).first()) && !white_space(
            trimmed(s).last(),
        ),
        trimmed(trimmed(s)) == trimmed(s),
{
    let t = trim_start_of(s);
    lemma_trim_start(s);
    lemma_trim_end(t);
    let u = trimmed(s);
    if u.len() > 0 {
        assert(u.first() == t.first());
    }
}

/// There are never more credentials than lines.
pub proof fn lemma_credentials_within_lines(lines: Seq<Seq<char>>)
    ensures
        credentials_in(lines).len() <= lines.len(),
    decreases lines.len(),
{
    if lines.len() > 0 {
        lemma_credentials_within_lines(lines.drop_last());
    }
}

/// Every credential taken from a list of lines is ready for use: it is not
/// empty and has no white space at either end. There are never more
/// credentials than lines.
pub proof fn law_credentials_are_clean(lines: Seq<Seq<char>>, i: int)
    requires
        0 <= i < credentials_in(lines).len(),
    ensures
        credentials_in(lines).len() <= lines.len(),
        credentials_in(lines)[i].len() > 0,
        !white_space(credentials_in(lines)[i].first()),
        !white_space(credentials_in(lines)[i].last()),
        !is_blank(credentials_in(lines)[i]),
    decreases lines.len(),
{
    lemma_credentials_within_lines(lines);
    let front = lines.drop_last();
    if is_blank(lines.last()) || i < credentials_in(front).len() {
        law_credentials_are_clean(front, i);
    } else {
        law_trimmed_is_clean(lines.last());
    }
}

/// A list without blank lines and without white space around any line is
/// taken as it stands: every line is a credential, in the same order.
pub proof fn law_clean_lines_are_kept(lines: Seq<Seq<char>>)
    requires
        forall|i: int| 0 <= i < lines.len() ==> trimmed(#[trigger] lines[i]) == lines[i],
        forall|i: int| 0 <= i < lines.len() ==> (#[trigger] lines[i]).len() > 0,
    ensures
        credentials_in(lines) == lines,
    decreases lines.len(),
{
    if lines.len() > 0 {
        let front = lines.drop_last();
        assert forall|i: int| 0 <= i < front.len() implies trimmed(#[trigger] front[i])
            == front[i] by {
            assert(front[i] == lines[i]);
        }
        assert forall|i: int| 0 <= i < front.len() implies (#[trigger] front[i]).len() > 0 by {
            assert(front[i] == lines[i]);
        }
        law_clean_lines_are_kept(front);
        assert(trimmed(lines.last()) == lines.last());
        assert(credentials_in(lines) =~= lines);
    } else {
        assert(credentials_in(lines) =~= lines);
    }
}

} // verus!
