//! Markdown section extraction.
//!
//! A section starts at the line whose trimmed text equals the trimmed
//! heading and runs until the next heading of equal or higher level (fewer
//! or equally many leading `#`), or the end of the input.

use vstd::prelude::*;

use crate::strutil::{
    chars_of, copy_range, is_ws, is_ws_char, push_char, str_eq, string_from_chars,
};

verus! {

/// Errors raised during markdown extraction.
#[derive(Debug, Clone, PartialEq)]
pub enum MarkdownError {
    /// The requested section heading does not occur in the input.
    SectionNotFound(String),
}

/// The user-visible text of each markdown error.
pub open spec fn spec_markdown_error_message(e: MarkdownError) -> Seq<char> {
    match e {
        MarkdownError::SectionNotFound(h) => "Section not found: "@ + h@,
    }
}

impl MarkdownError {
    /// Render the error as user-visible text.
    pub fn message(&self) -> (r: String)
        ensures
            r@ == spec_markdown_error_message(*self),
    {
        match self {
            MarkdownError::SectionNotFound(h) => {
                let mut m = String::from_str("Section not found: ");
                m.append(h.as_str());
                m
            }
        }
    }
}

/// The raw segments of the input split at every newline; one segment more
/// than there are newlines.
pub open spec fn spec_split_nl(s: Seq<char>) -> Seq<Seq<char>>
    decreases s.len(),
{
    if s.len() == 0 {
        seq![Seq::<char>::empty()]
    } else if s[0] == '\n' {
        seq![Seq::<char>::empty()] + spec_split_nl(s.drop_first())
    } else {
        let rest = spec_split_nl(s.drop_first());
        seq![seq![s[0]] + rest[0]] + rest.skip(1)
    }
}

/// A segment without one trailing carriage return.
pub open spec fn spec_strip_cr(l: Seq<char>) -> Seq<char> {
    if l.len() > 0 && l.last() == '\r' {
        l.drop_last()
    } else {
        l
    }
}

/// The lines of the input: split at newlines, each newline-terminated line
/// loses one trailing carriage return, and a final newline produces no
/// empty last line.
pub open spec fn spec_lines(s: Seq<char>) -> Seq<Seq<char>> {
    let raw = spec_split_nl(s);
    let body = raw.drop_last().map_values(|l: Seq<char>| spec_strip_cr(l));
    if raw.last().len() == 0 {
        body
    } else {
        body + seq![raw.last()]
    }
}

/// The input without leading whitespace.
pub open spec fn spec_trim_front(l: Seq<char>) -> Seq<char>
    decreases l.len(),
{
    if l.len() > 0 && is_ws_char(l[0]) {
        spec_trim_front(l.drop_first())
    } else {
        l
    }
}

/// The input without trailing whitespace.
pub open spec fn spec_trim_back(l: Seq<char>) -> Seq<char>
    decreases l.len(),
{
    if l.len() > 0 && is_ws_char(l.last()) {
        spec_trim_back(l.drop_last())
    } else {
        l
    }
}

/// The input without leading and trailing whitespace.
pub open spec fn spec_trim(l: Seq<char>) -> Seq<char> {
    spec_trim_back(spec_trim_front(l))
}

/// The number of leading `#` characters: the heading's level.
pub open spec fn spec_hash_level(l: Seq<char>) -> int
    decreases l.len(),
{
    if l.len() > 0 && l[0] == '#' {
        1 + spec_hash_level(l.drop_first())
    } else {
        0
    }
}

/// Whether a line ends a section of the given level: its trimmed text is a
/// heading of equal or higher level.
pub open spec fn spec_ends_section(l: Seq<char>, level: int) -> bool {
    let t = spec_trim(l);
    t.len() > 0 && t[0] == '#' && spec_hash_level(t) <= level
}

/// The first line whose trimmed text equals the trimmed heading.
pub open spec fn spec_find_start(lines: Seq<Seq<char>>, heading: Seq<char>) -> Option<int>
    decreases lines.len(),
{
    if lines.len() == 0 {
        None
    } else if spec_trim(lines[0]) == spec_trim(heading) {
        Some(0)
    } else {
        match spec_find_start(lines.drop_first(), heading) {
            Some(i) => Some(i + 1),
            None => None,
        }
    }
}

/// The first line that ends a section of the given level.
pub open spec fn spec_find_end(lines: Seq<Seq<char>>, level: int) -> Option<int>
    decreases lines.len(),
{
    if lines.len() == 0 {
        None
    } else if spec_ends_section(lines[0], level) {
        Some(0)
    } else {
        match spec_find_end(lines.drop_first(), level) {
            Some(i) => Some(i + 1),
            None => None,
        }
    }
}

/// Lines joined by single newlines.
pub open spec fn spec_join_nl(items: Seq<Seq<char>>) -> Seq<char>
    decreases items.len(),
{
    if items.len() == 0 {
        Seq::empty()
    } else if items.len() == 1 {
        items[0]
    } else {
        spec_join_nl(items.drop_last()) + seq!['\n'] + items.last()
    }
}

/// What `extract_section` returns when the heading occurs: the lines from
/// the heading up to (excluding) the next heading of equal or higher
/// level, joined by newlines.
pub open spec fn spec_extract_section(content: Seq<char>, heading: Seq<char>) -> Option<Seq<char>> {
    let lines = spec_lines(content);
    let level = spec_hash_level(heading);
    match spec_find_start(lines, heading) {
        None => None,
        Some(start) => {
            let end = match spec_find_end(lines.skip(start + 1), level) {
                Some(k) => start + 1 + k,
                None => lines.len() as int,
            };
            Some(spec_join_nl(lines.subrange(start, end)))
        },
    }
}

/// Splitting at the first newline peels off one line.
proof fn lemma_split_nl_at(s: Seq<char>, i: int)
    requires
        0 <= i < s.len(),
        s[i] == '\n',
        forall|j: int| 0 <= j < i ==> s[j] != '\n',
    ensures
        spec_split_nl(s) == seq![s.take(i)] + spec_split_nl(s.skip(i + 1)),
    decreases i,
{
    if i == 0 {
        assert(s.take(0) =~= Seq::<char>::empty());
        assert(s.drop_first() =~= s.skip(1));
    } else {
        let s2 = s.drop_first();
        assert(forall|j: int| 0 <= j < i - 1 ==> s2[j] != '\n');
        assert(s2[i - 1] == '\n');
        lemma_split_nl_at(s2, i - 1);
        let rest = spec_split_nl(s2);
        assert(rest == seq![s2.take(i - 1)] + spec_split_nl(s2.skip(i)));
        assert(rest[0] == s2.take(i - 1));
        assert(seq![s[0]] + s2.take(i - 1) =~= s.take(i));
        assert(rest.skip(1) =~= spec_split_nl(s2.skip(i)));
        assert(s2.skip(i) =~= s.skip(i + 1));
        assert(spec_split_nl(s) =~= seq![s.take(i)] + spec_split_nl(s.skip(i + 1)));
    }
}

/// An input without newlines is a single segment.
proof fn lemma_split_nl_whole(s: Seq<char>)
    requires
        forall|j: int| 0 <= j < s.len() ==> s[j] != '\n',
    ensures
        spec_split_nl(s) == seq![s],
    decreases s.len(),
{
    if s.len() == 0 {
        assert(seq![Seq::<char>::empty()] =~~= seq![s]);
    } else {
        lemma_split_nl_whole(s.drop_first());
        assert(seq![s[0]] + s.drop_first() =~= s);
        assert(spec_split_nl(s) =~~= seq![s]);
    }
}

/// Peeling one full line off the front of the input peels one line off its
/// line list.
proof fn lemma_lines_step(s: Seq<char>, i: int)
    requires
        0 <= i < s.len(),
        s[i] == '\n',
        forall|j: int| 0 <= j < i ==> s[j] != '\n',
    ensures
        spec_lines(s) == seq![spec_strip_cr(s.take(i))] + spec_lines(s.skip(i + 1)),
{
    lemma_split_nl_at(s, i);
    let raw = spec_split_nl(s);
    let rest_raw = spec_split_nl(s.skip(i + 1));
    assert(rest_raw.len() >= 1) by {
        lemma_split_nl_nonempty(s.skip(i + 1));
    }
    assert(raw.last() == rest_raw.last());
    assert(raw.drop_last() =~= seq![s.take(i)] + rest_raw.drop_last());
    assert(raw.drop_last().map_values(|l: Seq<char>| spec_strip_cr(l)) =~= seq![
        spec_strip_cr(s.take(i)),
    ] + rest_raw.drop_last().map_values(|l: Seq<char>| spec_strip_cr(l)));
    if raw.last().len() == 0 {
        assert(spec_lines(s) =~= seq![spec_strip_cr(s.take(i))] + spec_lines(s.skip(i + 1)));
    } else {
        assert(spec_lines(s) =~= seq![spec_strip_cr(s.take(i))] + spec_lines(s.skip(i + 1)));
    }
}

/// Splitting never yields an empty segment list.
proof fn lemma_split_nl_nonempty(s: Seq<char>)
    ensures
        spec_split_nl(s).len() >= 1,
    decreases s.len(),
{
    if s.len() > 0 {
        lemma_split_nl_nonempty(s.drop_first());
    }
}

/// The line list of an input without newlines.
proof fn lemma_lines_whole(s: Seq<char>)
    requires
        forall|j: int| 0 <= j < s.len() ==> s[j] != '\n',
    ensures
        s.len() == 0 ==> spec_lines(s) == Seq::<Seq<char>>::empty(),
        s.len() > 0 ==> spec_lines(s) == seq![s],
{
    lemma_split_nl_whole(s);
    let raw = spec_split_nl(s);
    assert(raw.drop_last() =~= Seq::<Seq<char>>::empty());
    if s.len() == 0 {
        assert(spec_lines(s) =~= Seq::<Seq<char>>::empty());
    } else {
        assert(spec_lines(s) =~= seq![s]);
    }
}

/// Split the input into its lines.
fn split_lines(s: &str) -> (r: Vec<String>)
    ensures
        r@.map_values(|l: String| l@) == spec_lines(s@),
{
    let cs = chars_of(s);
    let n = cs.len();
    let mut r: Vec<String> = Vec::new();
    let mut lstart: usize = 0;
    let mut j: usize = 0;
    proof {
        assert(s@.skip(0) =~= s@);
        assert(r@.map_values(|l: String| l@) =~= Seq::<Seq<char>>::empty());
        assert(r@.map_values(|l: String| l@) + spec_lines(s@) =~= spec_lines(s@));
    }
    while j < n
        invariant
            cs@ == s@,
            n == s@.len(),
            lstart <= j <= n,
            forall|k: int| lstart <= k < j ==> s@[k] != '\n',
            spec_lines(s@) == r@.map_values(|l: String| l@) + spec_lines(s@.skip(lstart as int)),
        decreases n - j,
    {
        if cs[j] == '\n' {
            let line_end = if j > lstart && cs[j - 1] == '\r' {
                j - 1
            } else {
                j
            };
            let lv = copy_range(&cs, lstart, line_end);
            let line = string_from_chars(&lv);
            let ghost old_map = r@.map_values(|l: String| l@);
            r.push(line);
            proof {
                let sk = s@.skip(lstart as int);
                assert(sk[j - lstart] == '\n');
                assert(forall|k: int| 0 <= k < j - lstart ==> sk[k] != '\n');
                lemma_lines_step(sk, j - lstart);
                assert(sk.take(j - lstart) =~= s@.subrange(lstart as int, j as int));
                assert(sk.skip(j - lstart + 1) =~= s@.skip(j + 1 as int));
                assert(spec_strip_cr(s@.subrange(lstart as int, j as int)) == s@.subrange(
                    lstart as int,
                    line_end as int,
                )) by {
                    if j > lstart && s@[j - 1 as int] == '\r' {
                        assert(s@.subrange(lstart as int, j as int).drop_last() =~= s@.subrange(
                            lstart as int,
                            j - 1 as int,
                        ));
                    }
                }
                assert(line@ == s@.subrange(lstart as int, line_end as int));
                assert(r@.map_values(|l: String| l@) =~~= old_map.push(line@));
                assert(old_map + (seq![line@] + spec_lines(s@.skip(j + 1 as int))) =~~= old_map.push(
                    line@,
                ) + spec_lines(s@.skip(j + 1 as int)));
            }
            lstart = j + 1;
        }
        j = j + 1;
    }
    proof {
        let sk = s@.skip(lstart as int);
        assert(forall|k: int| 0 <= k < sk.len() ==> sk[k] != '\n');
        lemma_lines_whole(sk);
    }
    if lstart < n {
        let lv = copy_range(&cs, lstart, n);
        let line = string_from_chars(&lv);
        let ghost old_map = r@.map_values(|l: String| l@);
        r.push(line);
        proof {
            assert(s@.subrange(lstart as int, n as int) =~= s@.skip(lstart as int));
            assert(r@.map_values(|l: String| l@) =~~= old_map.push(line@));
            assert(old_map + seq![s@.skip(lstart as int)] =~~= old_map.push(line@));
        }
    } else {
        proof {
            assert(r@.map_values(|l: String| l@) + Seq::<Seq<char>>::empty() =~~= r@.map_values(
                |l: String| l@,
            ));
        }
    }
    r
}

/// The input without leading and trailing whitespace.
pub(crate) fn str_trim(s: &str) -> (r: &str)
    ensures
        r@ == spec_trim(s@),
{
    let n = s.unicode_len();
    let mut lo: usize = 0;
    proof {
        assert(s@.skip(0) =~= s@);
    }
    while lo < n && is_ws(s.get_char(lo))
        invariant
            n == s@.len(),
            lo <= n,
            spec_trim_front(s@) == spec_trim_front(s@.skip(lo as int)),
        decreases n - lo,
    {
        proof {
            assert(s@.skip(lo as int)[0] == s@[lo as int]);
            assert(s@.skip(lo as int).drop_first() =~= s@.skip(lo + 1 as int));
        }
        lo = lo + 1;
    }
    proof {
        if lo < n {
            assert(s@.skip(lo as int)[0] == s@[lo as int]);
        }
        assert(spec_trim_front(s@) == s@.skip(lo as int));
    }
    let mut hi: usize = n;
    while hi > lo && is_ws(s.get_char(hi - 1))
        invariant
            n == s@.len(),
            lo <= hi <= n,
            spec_trim_front(s@) == s@.skip(lo as int),
            spec_trim_back(s@.skip(lo as int)) == spec_trim_back(
                s@.subrange(lo as int, hi as int),
            ),
        decreases hi,
    {
        proof {
            let sub = s@.subrange(lo as int, hi as int);
            assert(sub.last() == s@[hi - 1 as int]);
            assert(sub.drop_last() =~= s@.subrange(lo as int, hi - 1 as int));
        }
        hi = hi - 1;
    }
    proof {
        let sub = s@.subrange(lo as int, hi as int);
        if hi > lo {
            assert(sub.last() == s@[hi - 1 as int]);
        }
        assert(spec_trim_back(sub) == sub);
        assert(s@.skip(lo as int) =~= s@.subrange(lo as int, n as int));
    }
    s.substring_char(lo, hi)
}

/// The number of leading `#` characters.
fn hash_level(s: &str) -> (level: usize)
    ensures
        level as int == spec_hash_level(s@),
{
    let n = s.unicode_len();
    let mut i: usize = 0;
    proof {
        assert(s@.skip(0) =~= s@);
    }
    while i < n && s.get_char(i) == '#'
        invariant
            n == s@.len(),
            i <= n,
            spec_hash_level(s@) == i + spec_hash_level(s@.skip(i as int)),
        decreases n - i,
    {
        proof {
            assert(s@.skip(i as int)[0] == s@[i as int]);
            assert(s@.skip(i as int).drop_first() =~= s@.skip(i + 1 as int));
        }
        i = i + 1;
    }
    proof {
        if i < n {
            assert(s@.skip(i as int)[0] == s@[i as int]);
        }
        assert(spec_hash_level(s@.skip(i as int)) == 0);
    }
    i
}

/// Extract one section: it starts at the line whose trimmed text equals
/// the trimmed heading and runs to the next heading of equal or higher
/// level, or to the end of the input.
pub fn extract_section(content: &str, section_heading: &str) -> (r: Result<String, MarkdownError>)
    ensures
        match spec_extract_section(content@, section_heading@) {
            Some(text) => r matches Ok(out) && out@ == text,
            None => r matches Err(e) && (e matches MarkdownError::SectionNotFound(h) && h@
                == section_heading@),
        },
{
    let lines = split_lines(content);
    let ghost lv = lines@.map_values(|l: String| l@);
    let level = hash_level(section_heading);
    let target = str_trim(section_heading);

    // Find the heading line.
    let n = lines.len();
    let mut start: usize = 0;
    let mut found = false;
    proof {
        assert(lv.skip(0) =~= lv);
    }
    while start < n && !found
        invariant
            n == lines@.len(),
            lv == lines@.map_values(|l: String| l@),
            target@ == spec_trim(section_heading@),
            start <= n,
            !found ==> match spec_find_start(lv.skip(start as int), section_heading@) {
                Some(k) => spec_find_start(lv, section_heading@) == Some(start + k),
                None => spec_find_start(lv, section_heading@) is None,
            },
            found ==> start < n && spec_find_start(lv, section_heading@) == Some(start as int),
        decreases n - start, (if found {
            0int
        } else {
            1int
        }),
    {
        let t = str_trim(lines[start].as_str());
        if str_eq(t, target) {
            proof {
                assert(lv.skip(start as int)[0] == lv[start as int]);
                assert(lv[start as int] == lines@[start as int]@);
                assert(spec_find_start(lv.skip(start as int), section_heading@) == Some(0int));
            }
            found = true;
        } else {
            proof {
                assert(lv.skip(start as int)[0] == lv[start as int]);
                assert(lv[start as int] == lines@[start as int]@);
                assert(lv.skip(start as int).drop_first() =~= lv.skip(start + 1 as int));
            }
            start = start + 1;
        }
    }
    if !found {
        proof {
            assert(lv.skip(n as int).len() == 0);
        }
        return Err(MarkdownError::SectionNotFound(section_heading.to_owned()));
    }

    // Find the end of the section.
    let mut end: usize = start + 1;
    let mut ended = false;
    while end < n && !ended
        invariant
            n == lines@.len(),
            lv == lines@.map_values(|l: String| l@),
            start < n,
            start + 1 <= end <= n,
            level as int == spec_hash_level(section_heading@),
            !ended ==> match spec_find_end(lv.skip(end as int), level as int) {
                Some(k2) => spec_find_end(lv.skip(start + 1 as int), level as int) == Some(
                    (end - (start + 1)) + k2,
                ),
                None => spec_find_end(lv.skip(start + 1 as int), level as int) is None,
            },
            ended ==> end < n && spec_find_end(lv.skip(start + 1 as int), level as int) == Some(
                end - (start + 1) as int,
            ),
        decreases n - end, (if ended {
            0int
        } else {
            1int
        }),
    {
        let t = str_trim(lines[end].as_str());
        let tn = t.unicode_len();
        let mut ends_here = false;
        if tn > 0 && t.get_char(0) == '#' {
            let tl = hash_level(t);
            if tl <= level {
                ends_here = true;
            }
        }
        proof {
            assert(lv.skip(end as int)[0] == lv[end as int]);
            assert(lv[end as int] == lines@[end as int]@);
            assert(ends_here == spec_ends_section(lv[end as int], level as int));
        }
        if ends_here {
            proof {
                assert(spec_find_end(lv.skip(end as int), level as int) == Some(0int));
            }
            ended = true;
        } else {
            proof {
                assert(lv.skip(end as int).drop_first() =~= lv.skip(end + 1 as int));
            }
            end = end + 1;
        }
    }
    proof {
        if !ended {
            assert(lv.skip(end as int).len() == 0);
            assert(spec_find_end(lv.skip(start + 1 as int), level as int) is None);
            assert(end == n);
        }
    }

    // Join the section's lines.
    let mut out = String::new();
    let mut k: usize = start;
    while k < end
        invariant
            n == lines@.len(),
            lv == lines@.map_values(|l: String| l@),
            start <= k <= end <= n,
            out@ == spec_join_nl(lv.subrange(start as int, k as int)),
        decreases end - k,
    {
        if k > start {
            push_char(&mut out, '\n');
        }
        out.append(lines[k].as_str());
        proof {
            let sub = lv.subrange(start as int, k + 1 as int);
            assert(sub.drop_last() =~= lv.subrange(start as int, k as int));
            assert(sub.last() == lv[k as int]);
            assert(lv[k as int] == lines@[k as int]@);
            assert(out@ =~= spec_join_nl(sub));
        }
        k = k + 1;
    }
    Ok(out)
}

/// What `extract_sections` returns: each requested section in order,
/// joined by blank lines, or the first heading that is absent.
pub open spec fn spec_extract_sections(content: Seq<char>, headings: Seq<Seq<char>>) -> Result<
    Seq<char>,
    Seq<char>,
>
    decreases headings.len(),
{
    if headings.len() == 0 {
        Ok(Seq::empty())
    } else {
        match spec_extract_section(content, headings[0]) {
            None => Err(headings[0]),
            Some(t) => match spec_extract_sections(content, headings.drop_first()) {
                Err(h) => Err(h),
                Ok(rest) => if headings.len() == 1 {
                    Ok(t)
                } else {
                    Ok(t + "\n\n"@ + rest)
                },
            },
        }
    }
}

/// Extract several sections and join them with blank lines; the first
/// absent heading is the error.
pub fn extract_sections(content: &str, section_headings: &Vec<String>) -> (r: Result<
    String,
    MarkdownError,
>)
    ensures
        match spec_extract_sections(content@, section_headings@.map_values(|h: String| h@)) {
            Ok(text) => r matches Ok(out) && out@ == text,
            Err(h) => r matches Err(e) && (e matches MarkdownError::SectionNotFound(hh) && hh@
                == h),
        },
{
    let ghost hv = section_headings@.map_values(|h: String| h@);
    let n = section_headings.len();
    let mut out = String::new();
    let mut i: usize = 0;
    proof {
        assert(hv.skip(0) =~= hv);
    }
    while i < n
        invariant
            n == section_headings@.len(),
            hv == section_headings@.map_values(|h: String| h@),
            i <= n,
            i == 0 ==> out@ == Seq::<char>::empty(),
            match spec_extract_sections(content@, hv.skip(i as int)) {
                Ok(rest) => spec_extract_sections(content@, hv) == Ok::<Seq<char>, Seq<char>>(
                    if i == 0 {
                        rest
                    } else if i < n {
                        out@ + "\n\n"@ + rest
                    } else {
                        out@
                    },
                ),
                Err(h) => spec_extract_sections(content@, hv) == Err::<Seq<char>, Seq<char>>(h),
            },
        decreases n - i,
    {
        proof {
            assert(hv.skip(i as int).len() == n - i);
            assert(hv.skip(i as int)[0] == hv[i as int]);
            assert(hv[i as int] == section_headings@[i as int]@);
            assert(hv.skip(i as int).drop_first() =~= hv.skip(i + 1 as int));
        }
        match extract_section(content, section_headings[i].as_str()) {
            Err(e) => {
                proof {
                    assert(spec_extract_sections(content@, hv.skip(i as int)) == Err::<
                        Seq<char>,
                        Seq<char>,
                    >(hv[i as int]));
                }
                return Err(e);
            },
            Ok(section) => {
                let ghost old_out = out@;
                if i > 0 {
                    out.append("\n\n");
                }
                out.append(section.as_str());
                proof {
                    assert(spec_extract_section(content@, hv[i as int]) == Some(section@));
                    if i > 0 {
                        assert(out@ == old_out + "\n\n"@ + section@);
                    } else {
                        assert(out@ =~= section@);
                    }
                    match spec_extract_sections(content@, hv.skip(i + 1 as int)) {
                        Err(h) => {
                            assert(spec_extract_sections(content@, hv.skip(i as int)) == Err::<
                                Seq<char>,
                                Seq<char>,
                            >(h));
                        },
                        Ok(rest_next) => {
                            if i + 1 == n {
                                assert(hv.skip(i as int).len() == 1);
                                assert(spec_extract_sections(content@, hv.skip(i as int)) == Ok::<
                                    Seq<char>,
                                    Seq<char>,
                                >(section@));
                            } else {
                                assert(spec_extract_sections(content@, hv.skip(i as int)) == Ok::<
                                    Seq<char>,
                                    Seq<char>,
                                >(section@ + "\n\n"@ + rest_next));
                                if i == 0 {
                                    assert(section@ + "\n\n"@ + rest_next =~= out@ + "\n\n"@
                                        + rest_next);
                                } else {
                                    assert(old_out + "\n\n"@ + (section@ + "\n\n"@ + rest_next)
                                        =~= out@ + "\n\n"@ + rest_next);
                                }
                            }
                        },
                    }
                }
            },
        }
        i = i + 1;
    }
    proof {
        assert(hv.skip(n as int).len() == 0);
    }
    Ok(out)
}

} // verus!
