//! Numbered menus on a terminal screen.
use vstd::prelude::*;

use crate::text::{
    byte_len, chars_of, is_bare, is_blank, is_whitespace_char, law_trimming_takes_the_ends_only,
    skip_whitespace, skip_whitespace_back, string_of, trimmed, trimmed_start, utf8_len,
};

verus! {

/// A choice that a menu offers: the key that takes it, and its words.
#[derive(Debug, PartialEq, Eq)]
pub struct MenuOption {
    pub key: String,
    pub label: String,
}

/// The content of a `MenuOption`.
pub struct OptionModel {
    pub key: Seq<char>,
    pub label: Seq<char>,
}

impl View for MenuOption {
    type V = OptionModel;

    open spec fn view(&self) -> OptionModel {
        OptionModel { key: self.key@, label: self.label@ }
    }
}

/// What the options of a menu stand for.
pub open spec fn menu_view(menu: Seq<MenuOption>) -> Seq<OptionModel> {
    menu.map_values(|option: MenuOption| option@)
}

/// Where the first line of a text ends: at its newline, or at the end of the text.
pub open spec fn line_end(s: Seq<char>) -> nat
    decreases s.len(),
{
    if s.len() == 0 || s[0] == '\n' {
        0
    } else {
        1 + line_end(s.drop_first())
    }
}

/// A line without the carriage return before its newline.
pub open spec fn without_return(s: Seq<char>) -> Seq<char> {
    if s.len() > 0 && s.last() == '\r' {
        s.drop_last()
    } else {
        s
    }
}

/// The lines of a text, without their newlines and the carriage returns right before those. The
/// last newline may be missing.
pub open spec fn lines(s: Seq<char>) -> Seq<Seq<char>>
    decreases s.len(),
{
    if s.len() == 0 {
        Seq::empty()
    } else if line_end(s) >= s.len() {
        seq![s]
    } else {
        seq![without_return(s.take(line_end(s) as int))] + lines(s.skip(line_end(s) as int + 1))
    }
}

/// The line without the pointers that mark a current choice.
pub open spec fn without_pointers(s: Seq<char>) -> Seq<char>
    decreases s.len(),
{
    if s.len() > 0 && (s[0] == '❯' || s[0] == '>') {
        without_pointers(s.drop_first())
    } else {
        s
    }
}

/// The line from its number on: white space, pointers and one opening bracket are left out.
pub open spec fn from_number(line: Seq<char>) -> Seq<char> {
    let s = trimmed_start(without_pointers(trimmed_start(line)));
    if s.len() > 0 && s[0] == '[' {
        s.drop_first()
    } else {
        s
    }
}

/// The option on a line: a digit from one to nine, a dot or a closing bracket, a space, and words.
pub open spec fn line_option(line: Seq<char>) -> Option<OptionModel> {
    let s = from_number(line);
    if s.len() >= 4 && '1' <= s[0] <= '9' && (s[1] == '.' || s[1] == ')' || s[1] == ']') && s[2]
        == ' ' {
        Some(OptionModel { key: s.take(1), label: trimmed(s.skip(3)) })
    } else {
        None
    }
}

/// The options on lines, in their order.
pub open spec fn lines_options(all: Seq<Seq<char>>) -> Seq<OptionModel>
    decreases all.len(),
{
    if all.len() == 0 {
        Seq::empty()
    } else {
        match line_option(all.last()) {
            Some(option) => lines_options(all.drop_last()).push(option),
            None => lines_options(all.drop_last()),
        }
    }
}

/// Each option has words, and no two have one key.
pub open spec fn explicit(menu: Seq<OptionModel>) -> bool {
    &&& forall|i: int| 0 <= i < menu.len() ==> (#[trigger] menu[i]).label.len() > 0
    &&& forall|i: int, j: int|
        0 <= i < j < menu.len() ==> (#[trigger] menu[i]).key != (#[trigger] menu[j]).key
}

/// A text within the bounds of what is read: 32 lines and 4096 bytes.
pub open spec fn is_bounded(screen: Seq<char>) -> bool {
    utf8_len(screen) <= 4096 && lines(screen).len() <= 32
}

/// The menu that a text shows: at least two explicit options on a text within bounds.
pub open spec fn menu_of(screen: Seq<char>) -> Option<Seq<OptionModel>> {
    let menu = lines_options(lines(screen));
    if is_bounded(screen) && explicit(menu) && menu.len() >= 2 {
        Some(menu)
    } else {
        None
    }
}

/// A stretch of characters per line.
spec fn stretches(chars: Seq<char>, ranges: Seq<(usize, usize)>) -> Seq<Seq<char>> {
    ranges.map_values(|r: (usize, usize)| chars.subrange(r.0 as int, r.1 as int))
}

proof fn lemma_line_end(s: Seq<char>)
    ensures
        line_end(s) <= s.len(),
        line_end(s) < s.len() ==> s[line_end(s) as int] == '\n',
        forall|i: int| 0 <= i < line_end(s) ==> #[trigger] s[i] != '\n',
    decreases s.len(),
{
    if s.len() > 0 && s[0] != '\n' {
        let rest = s.drop_first();
        lemma_line_end(rest);
        assert forall|i: int| 0 <= i < line_end(s) implies #[trigger] s[i] != '\n' by {
            if i > 0 {
                assert(rest[i - 1] == s[i]);
            }
        }
    }
}

proof fn lemma_line_end_is(s: Seq<char>, n: int)
    requires
        0 <= n <= s.len(),
        n < s.len() ==> s[n] == '\n',
        forall|i: int| 0 <= i < n ==> #[trigger] s[i] != '\n',
    ensures
        line_end(s) == n,
{
    lemma_line_end(s);
    if line_end(s) < n {
        assert(s[line_end(s) as int] != '\n');
    }
    if n < line_end(s) {
        assert(s[n] != '\n');
    }
}

/// Where each line of a text stands.
fn line_ranges(chars: &Vec<char>) -> (ranges: Vec<(usize, usize)>)
    ensures
        forall|i: int|
            0 <= i < ranges@.len() ==> (#[trigger] ranges@[i]).0 <= ranges@[i].1 <= chars@.len(),
        stretches(chars@, ranges@) == lines(chars@),
{
    let mut ranges: Vec<(usize, usize)> = Vec::new();
    let mut start: usize = 0;
    proof {
        assert(chars@.skip(0) =~= chars@);
        assert(stretches(chars@, ranges@) + lines(chars@) =~= lines(chars@));
    }
    while start < chars.len()
        invariant
            start <= chars@.len(),
            forall|i: int|
                0 <= i < ranges@.len() ==> (#[trigger] ranges@[i]).0 <= ranges@[i].1
                    <= chars@.len(),
            stretches(chars@, ranges@) + lines(chars@.skip(start as int)) == lines(chars@),
        decreases chars@.len() - start,
    {
        let ghost rest = chars@.skip(start as int);
        let mut end: usize = start;
        while end < chars.len() && chars[end] != '\n'
            invariant
                start <= end <= chars@.len(),
                rest == chars@.skip(start as int),
                forall|i: int| 0 <= i < end - start ==> #[trigger] rest[i] != '\n',
            decreases chars@.len() - end,
        {
            assert(rest[end - start] == chars@[end as int]);
            end = end + 1;
        }
        proof {
            if end < chars@.len() {
                assert(rest[end - start] == chars@[end as int]);
            }
            lemma_line_end_is(rest, end - start);
        }
        let ghost before = ranges@;
        if end == chars.len() {
            ranges.push((start, end));
            proof {
                assert(chars@.subrange(start as int, end as int) =~= rest);
                assert(stretches(chars@, ranges@) =~= stretches(chars@, before).push(rest));
                assert(chars@.skip(end as int).len() == 0);
                assert(stretches(chars@, before) + seq![rest] =~= stretches(chars@, ranges@));
                assert(stretches(chars@, ranges@) + lines(chars@.skip(end as int)) =~= stretches(
                    chars@,
                    ranges@,
                ));
            }
            start = end;
        } else {
            let stop = if end > start && chars[end - 1] == '\r' {
                end - 1
            } else {
                end
            };
            ranges.push((start, stop));
            proof {
                let line = rest.take(end - start);
                assert(line =~= chars@.subrange(start as int, end as int));
                assert(without_return(line) =~= chars@.subrange(start as int, stop as int));
                assert(stretches(chars@, ranges@) =~= stretches(chars@, before).push(
                    without_return(line),
                ));
                assert(rest.skip(end - start + 1) =~= chars@.skip(end + 1));
                assert(stretches(chars@, before) + (seq![without_return(line)] + lines(
                    chars@.skip(end + 1),
                )) =~= stretches(chars@, ranges@) + lines(chars@.skip(end + 1)));
            }
            start = end + 1;
        }
    }
    proof {
        assert(chars@.skip(start as int).len() == 0);
        assert(stretches(chars@, ranges@) + lines(chars@.skip(start as int)) =~= stretches(
            chars@,
            ranges@,
        ));
    }
    ranges
}

/// Where the pointers at the start of a stretch end.
fn skip_pointers(chars: &Vec<char>, from: usize, to: usize) -> (start: usize)
    requires
        from <= to <= chars@.len(),
    ensures
        from <= start <= to,
        chars@.subrange(start as int, to as int) == without_pointers(
            chars@.subrange(from as int, to as int),
        ),
{
    let mut start: usize = from;
    while start < to && (chars[start] == '❯' || chars[start] == '>')
        invariant
            from <= start <= to <= chars@.len(),
            without_pointers(chars@.subrange(start as int, to as int)) == without_pointers(
                chars@.subrange(from as int, to as int),
            ),
        decreases to - start,
    {
        assert(chars@.subrange(start as int, to as int).drop_first() =~= chars@.subrange(
            start + 1,
            to as int,
        ));
        start = start + 1;
    }
    start
}

/// What an optional menu option stands for.
spec fn option_view(option: Option<MenuOption>) -> Option<OptionModel> {
    match option {
        Some(o) => Some(o@),
        None => None,
    }
}

/// Reads the option on a line.
fn read_option(chars: &Vec<char>, from: usize, to: usize) -> (option: Option<MenuOption>)
    requires
        from <= to <= chars@.len(),
    ensures
        option_view(option) == line_option(chars@.subrange(from as int, to as int)),
{
    let words = skip_whitespace(chars, from, to);
    let pointed = skip_pointers(chars, words, to);
    let bare = skip_whitespace(chars, pointed, to);
    let start = if bare < to && chars[bare] == '[' {
        bare + 1
    } else {
        bare
    };
    let ghost s = from_number(chars@.subrange(from as int, to as int));
    assert(s =~= chars@.subrange(start as int, to as int));
    if to - start < 4 || !('1' <= chars[start] && chars[start] <= '9') || !(chars[start + 1] == '.'
        || chars[start + 1] == ')' || chars[start + 1] == ']') || chars[start + 2] != ' ' {
        return None;
    }
    let key = string_of(chars, start, start + 1);
    let first = skip_whitespace(chars, start + 3, to);
    let last = skip_whitespace_back(chars, first, to);
    let label = string_of(chars, first, last);
    assert(key@ =~= s.take(1));
    assert(chars@.subrange(start + 3, to as int) =~= s.skip(3));
    Some(MenuOption { key, label })
}

/// The options of the first lines come first.
proof fn lemma_options_prefix(all: Seq<Seq<char>>, n: int)
    requires
        0 <= n <= all.len(),
    ensures
        lines_options(all.take(n)).len() <= lines_options(all).len(),
        forall|i: int|
            0 <= i < lines_options(all.take(n)).len() ==> #[trigger] lines_options(all.take(n))[i]
                == lines_options(all)[i],
    decreases all.len(),
{
    if n == all.len() {
        assert(all.take(n) =~= all);
    } else {
        lemma_options_prefix(all.drop_last(), n);
        assert(all.drop_last().take(n) =~= all.take(n));
    }
}

/// Whether a text is within the bounds of what is read.
pub fn region_fits(screen: &str) -> (b: bool)
    ensures
        b == is_bounded(screen@),
{
    if byte_len(screen) > 4096 {
        return false;
    }
    let ranges = line_ranges(&chars_of(screen));
    assert(lines(screen@).len() == ranges@.len());
    ranges.len() <= 32
}

/// Reads the menu that a text shows. Only explicit single-digit keys count: nothing is inferred,
/// nothing is a default.
pub fn options(screen: &str) -> (menu: Option<Vec<MenuOption>>)
    ensures
        match menu {
            Some(found) => menu_of(screen@) == Some(menu_view(found@)),
            None => menu_of(screen@) is None,
        },
{
    if byte_len(screen) > 4096 {
        return None;
    }
    let chars = chars_of(screen);
    let ranges = line_ranges(&chars);
    let ghost all = lines(screen@);
    assert(all.len() == ranges@.len());
    if ranges.len() > 32 {
        return None;
    }
    let mut menu: Vec<MenuOption> = Vec::new();
    let mut n: usize = 0;
    assert(all.take(0) =~= Seq::<Seq<char>>::empty());
    assert(menu_view(menu@) =~= Seq::<OptionModel>::empty());
    while n < ranges.len()
        invariant
            n <= ranges@.len(),
            all == lines(screen@),
            all == stretches(chars@, ranges@),
            all.len() == ranges@.len(),
            forall|i: int|
                0 <= i < ranges@.len() ==> (#[trigger] ranges@[i]).0 <= ranges@[i].1
                    <= chars@.len(),
            menu_view(menu@) == lines_options(all.take(n as int)),
            explicit(menu_view(menu@)),
        decreases ranges@.len() - n,
    {
        let (from, to) = ranges[n];
        proof {
            assert(all[n as int] == chars@.subrange(from as int, to as int));
            assert(all.take(n + 1).drop_last() =~= all.take(n as int));
            assert(all.take(n + 1).last() == all[n as int]);
        }
        if let Some(option) = read_option(&chars, from, to) {
            let ghost seen = menu_view(menu@);
            let ghost more = lines_options(all.take(n + 1));
            proof {
                assert(more == seen.push(option@));
                lemma_options_prefix(all, n + 1);
            }
            if option.label.as_str().is_empty() {
                proof {
                    let whole = lines_options(all);
                    assert(whole[seen.len() as int] == more[seen.len() as int]);
                    assert(!explicit(whole));
                }
                return None;
            }
            let mut k: usize = 0;
            while k < menu.len()
                invariant
                    k <= menu@.len(),
                    all == lines(screen@),
                    seen == menu_view(menu@),
                    more == seen.push(option@),
                    more == lines_options(all.take(n + 1)),
                    more.len() <= lines_options(all).len(),
                    forall|i: int|
                        0 <= i < more.len() ==> #[trigger] more[i] == lines_options(all)[i],
                    forall|i: int| 0 <= i < k ==> (#[trigger] seen[i]).key != option@.key,
                decreases menu@.len() - k,
            {
                if crate::text::text_eq(menu[k].key.as_str(), option.key.as_str()) {
                    proof {
                        let whole = lines_options(all);
                        assert(seen[k as int].key == option@.key);
                        assert(whole[k as int] == more[k as int]);
                        assert(whole[seen.len() as int] == more[seen.len() as int]);
                        assert(!explicit(whole));
                    }
                    return None;
                }
                assert(seen[k as int] == menu@[k as int]@);
                k = k + 1;
            }
            menu.push(option);
            assert(menu_view(menu@) =~= more);
        }
        n = n + 1;
    }
    assert(all.take(n as int) =~= all);
    if menu.len() >= 2 {
        Some(menu)
    } else {
        None
    }
}

proof fn lemma_option_keys(all: Seq<Seq<char>>)
    ensures
        forall|i: int|
            0 <= i < lines_options(all).len() ==> (#[trigger] lines_options(all)[i]).key.len() == 1
                && '1' <= lines_options(all)[i].key[0] <= '9',
    decreases all.len(),
{
    if all.len() > 0 {
        let front = lines_options(all.drop_last());
        lemma_option_keys(all.drop_last());
        assert forall|i: int| 0 <= i < lines_options(all).len() implies (#[trigger] lines_options(
            all,
        )[i]).key.len() == 1 && '1' <= lines_options(all)[i].key[0] <= '9' by {
            if i < front.len() {
                assert(lines_options(all)[i] == front[i]);
            }
        }
    }
}

/// A menu has at least two options. The key of each is a single digit from one to nine, no key
/// occurs twice, and each option has words. A text over 4096 bytes or 32 lines shows no menu.
pub proof fn law_menus_are_explicit_and_bounded(screen: Seq<char>)
    ensures
        utf8_len(screen) > 4096 || lines(screen).len() > 32 ==> menu_of(screen) is None,
        menu_of(screen) matches Some(menu) ==> {
            &&& menu.len() >= 2
            &&& forall|i: int|
                0 <= i < menu.len() ==> (#[trigger] menu[i]).key.len() == 1 && '1' <= menu[i].key[0]
                    <= '9' && menu[i].label.len() > 0
            &&& forall|i: int, j: int|
                0 <= i < j < menu.len() ==> (#[trigger] menu[i]).key != (#[trigger] menu[j]).key
        },
{
    lemma_option_keys(lines(screen));
}

proof fn lemma_line_end_add(a: Seq<char>, rest: Seq<char>)
    requires
        forall|i: int| 0 <= i < a.len() ==> #[trigger] a[i] != '\n',
        rest.len() > 0 ==> rest[0] == '\n',
    ensures
        line_end(a + rest) == a.len(),
{
    let s = a + rest;
    assert forall|i: int| 0 <= i < a.len() implies #[trigger] s[i] != '\n' by {
        assert(s[i] == a[i]);
    }
    if rest.len() > 0 {
        assert(s[a.len() as int] == rest[0]);
    }
    lemma_line_end_is(s, a.len() as int);
}

/// A text is cut at its newlines, each line is kept whole but for a carriage return before its
/// newline, and what follows the last newline is a line if there is anything.
pub proof fn law_lines_are_cut_at_newlines(a: Seq<char>, rest: Seq<char>)
    requires
        forall|i: int| 0 <= i < a.len() ==> #[trigger] a[i] != '\n',
    ensures
        lines(a.push('\n') + rest) == seq![without_return(a)] + lines(rest),
        a.len() > 0 ==> lines(a) == seq![a],
        lines(Seq::empty()) == Seq::<Seq<char>>::empty(),
        without_return(a.push('\r')) == a,
        a.len() == 0 || a.last() != '\r' ==> without_return(a) == a,
{
    let s = a.push('\n') + rest;
    let tail = seq!['\n'] + rest;
    assert(s =~= a + tail);
    lemma_line_end_add(a, tail);
    assert(s.take(a.len() as int) =~= a);
    assert(s.skip(a.len() as int + 1) =~= rest);
    lemma_line_end_add(a, Seq::empty());
    assert(a + Seq::<char>::empty() =~= a);
    assert(a.push('\r').drop_last() =~= a);
}

/// All characters are pointers at a current choice.
pub open spec fn are_pointers(s: Seq<char>) -> bool {
    forall|i: int| 0 <= i < s.len() ==> #[trigger] s[i] == '❯' || s[i] == '>'
}

proof fn lemma_without_pointers(p: Seq<char>, s: Seq<char>)
    requires
        are_pointers(p),
        s.len() > 0 ==> s[0] != '❯' && s[0] != '>',
    ensures
        without_pointers(p + s) == s,
    decreases p.len(),
{
    if p.len() > 0 {
        let rest = p.drop_first();
        assert forall|i: int| 0 <= i < rest.len() implies #[trigger] rest[i] == '❯' || rest[i]
            == '>' by {
            assert(rest[i] == p[i + 1]);
        }
        lemma_without_pointers(rest, s);
        assert((p + s)[0] == p[0]);
        assert((p + s).drop_first() =~= rest + s);
    } else {
        assert(p + s =~= s);
    }
}

/// What stands before the number on a line: white space, pointers, white space and at most one
/// opening bracket.
pub open spec fn is_lead(lead: Seq<char>) -> bool {
    exists|a: Seq<char>, p: Seq<char>, b: Seq<char>, bracket: bool|
        is_lead_of(a, p, b, bracket, lead)
}

pub open spec fn is_lead_of(
    a: Seq<char>,
    p: Seq<char>,
    b: Seq<char>,
    bracket: bool,
    lead: Seq<char>,
) -> bool {
    &&& is_blank(a) && are_pointers(p) && is_blank(b)
    &&& lead == a + p + b + if bracket {
        seq!['[']
    } else {
        Seq::<char>::empty()
    }
}

proof fn lemma_trimmed_start_any(a: Seq<char>, s: Seq<char>)
    requires
        is_blank(a),
        s.len() > 0,
        !is_whitespace_char(s[0]),
    ensures
        trimmed_start(a + s) == s,
    decreases a.len(),
{
    if a.len() > 0 {
        let rest = a.drop_first();
        assert forall|i: int| 0 <= i < rest.len() implies is_whitespace_char(#[trigger] rest[i]) by {
            assert(rest[i] == a[i + 1]);
        }
        lemma_trimmed_start_any(rest, s);
        assert((a + s)[0] == a[0]);
        assert((a + s).drop_first() =~= rest + s);
    } else {
        assert(a + s =~= s);
    }
}

proof fn lemma_from_number(
    a: Seq<char>,
    p: Seq<char>,
    b: Seq<char>,
    bracket: bool,
    s: Seq<char>,
)
    requires
        is_blank(a),
        are_pointers(p),
        is_blank(b),
        s.len() > 0,
        '1' <= s[0] <= '9',
    ensures
        from_number(a + p + b + if bracket {
            seq!['[']
        } else {
            Seq::<char>::empty()
        } + s) == s,
{
    let bare = if bracket {
        seq!['['] + s
    } else {
        s
    };
    let open = if bracket {
        seq!['[']
    } else {
        Seq::<char>::empty()
    };
    let line = a + p + b + open + s;
    assert(open + s =~= bare);
    assert(line =~= a + (p + (b + bare)));
    let spaced = b + bare;
    if b.len() > 0 {
        assert(is_whitespace_char(b[0]));
        assert(spaced[0] == b[0]);
        assert(b[0] != '❯' && b[0] != '>');
    } else {
        assert(spaced =~= bare);
    }
    assert(!is_whitespace_char(bare[0]));
    lemma_trimmed_start_any(b, bare);
    lemma_without_pointers(p, spaced);
    if p.len() > 0 {
        assert(are_pointers(p));
        assert(p[0] == '❯' || p[0] == '>');
        assert((p + spaced)[0] == p[0]);
        lemma_trimmed_start_any(a, p + spaced);
    } else {
        assert(p + spaced =~= spaced);
        let both = a + b;
        assert forall|i: int| 0 <= i < both.len() implies is_whitespace_char(#[trigger] both[i]) by {
            if i < a.len() {
                assert(both[i] == a[i]);
            } else {
                assert(both[i] == b[i - a.len()]);
            }
        }
        lemma_trimmed_start_any(both, bare);
        assert(a + spaced =~= both + bare);
        assert(without_pointers(bare) == bare) by {
            lemma_without_pointers(Seq::empty(), bare);
            assert(Seq::<char>::empty() + bare =~= bare);
        }
        lemma_trimmed_start_any(Seq::empty(), bare);
        assert(Seq::<char>::empty() + bare =~= bare);
    }
    if bracket {
        assert(bare.drop_first() =~= s);
    }
}

/// An option is read from every line that has one: after white space, pointers, white space and
/// perhaps an opening bracket, a digit from one to nine, a dot or a closing bracket, a space, and
/// words, with white space around them or not. Its key is that digit and its label those words.
pub proof fn law_every_option_is_read(
    a: Seq<char>,
    p: Seq<char>,
    b: Seq<char>,
    bracket: bool,
    digit: char,
    mark: char,
    before: Seq<char>,
    words: Seq<char>,
    behind: Seq<char>,
)
    requires
        is_blank(a),
        are_pointers(p),
        is_blank(b),
        '1' <= digit <= '9',
        mark == '.' || mark == ')' || mark == ']',
        is_blank(before),
        is_bare(words),
        is_blank(behind),
        before.len() + words.len() + behind.len() > 0,
    ensures
        line_option(a + p + b + if bracket {
            seq!['[']
        } else {
            Seq::<char>::empty()
        } + (seq![digit, mark, ' '] + (before + words + behind))) == Some(
            OptionModel { key: seq![digit], label: words },
        ),
{
    let s = seq![digit, mark, ' '] + (before + words + behind);
    lemma_from_number(a, p, b, bracket, s);
    assert(s.take(1) =~= seq![digit]);
    assert(s.skip(3) =~= before + words + behind);
    law_trimming_takes_the_ends_only(before, words, behind);
}

proof fn lemma_lead_exists(line: Seq<char>)
    ensures
        exists|lead: Seq<char>| #[trigger] is_lead(lead) && line == lead + from_number(line),
{
    let t = trimmed_start(line);
    lemma_trimmed_start_splits(line);
    let a = line.take(line.len() - t.len());
    let u = without_pointers(t);
    lemma_pointers_split(t);
    let p = t.take(t.len() - u.len());
    let v = trimmed_start(u);
    lemma_trimmed_start_splits(u);
    let b = u.take(u.len() - v.len());
    let bracket = v.len() > 0 && v[0] == '[';
    let open = if bracket {
        seq!['[']
    } else {
        Seq::<char>::empty()
    };
    let lead = a + p + b + open;
    assert(is_lead_of(a, p, b, bracket, lead));
    assert(is_lead(lead));
    assert(v =~= open + from_number(line));
    assert(u =~= b + v);
    assert(t =~= p + u);
    assert(line =~= a + t);
    assert(line =~= lead + from_number(line));
}

proof fn lemma_trimmed_start_splits(s: Seq<char>)
    ensures
        trimmed_start(s).len() <= s.len(),
        s.skip(s.len() - trimmed_start(s).len()) == trimmed_start(s),
        is_blank(s.take(s.len() - trimmed_start(s).len())),
    decreases s.len(),
{
    let t = trimmed_start(s);
    if s.len() > 0 && is_whitespace_char(s[0]) {
        let rest = s.drop_first();
        lemma_trimmed_start_splits(rest);
        let n = s.len() - t.len();
        assert(s.skip(n) =~= rest.skip(n - 1));
        let head = s.take(n);
        assert forall|i: int| 0 <= i < head.len() implies is_whitespace_char(#[trigger] head[i]) by {
            if i > 0 {
                assert(rest.take(n - 1)[i - 1] == head[i]);
            }
        }
    } else {
        assert(s.skip(0) =~= s);
    }
}

proof fn lemma_pointers_split(s: Seq<char>)
    ensures
        without_pointers(s).len() <= s.len(),
        s.skip(s.len() - without_pointers(s).len()) == without_pointers(s),
        are_pointers(s.take(s.len() - without_pointers(s).len())),
    decreases s.len(),
{
    let t = without_pointers(s);
    if s.len() > 0 && (s[0] == '❯' || s[0] == '>') {
        let rest = s.drop_first();
        lemma_pointers_split(rest);
        let n = s.len() - t.len();
        assert(s.skip(n) =~= rest.skip(n - 1));
        let head = s.take(n);
        assert forall|i: int| 0 <= i < head.len() implies #[trigger] head[i] == '❯' || head[i]
            == '>' by {
            if i > 0 {
                assert(rest.take(n - 1)[i - 1] == head[i]);
            }
        }
    } else {
        assert(s.skip(0) =~= s);
    }
}

/// Nothing else is read as an option: where a line has one, it is made of white space, pointers,
/// white space and perhaps an opening bracket, then its key, a dot or a closing bracket, a space,
/// and something that is its label but for white space.
pub proof fn law_nothing_else_is_an_option(line: Seq<char>)
    ensures
        line_option(line) matches Some(option) ==> {
            &&& option.key.len() == 1 && '1' <= option.key[0] <= '9'
            &&& exists|lead: Seq<char>, mark: char, rest: Seq<char>|
                is_option_line(line, lead, option.key[0], mark, rest) && option.label == trimmed(
                    rest,
                )
        },
{
    if let Some(option) = line_option(line) {
        lemma_lead_exists(line);
        let s = from_number(line);
        let lead = choose|lead: Seq<char>| #[trigger] is_lead(lead) && line == lead + s;
        assert(s =~= seq![s[0], s[1], ' '] + s.skip(3));
        assert(is_option_line(line, lead, option.key[0], s[1], s.skip(3)));
    }
}

/// A line is made of a lead, a digit, a mark, a space and something more.
pub open spec fn is_option_line(
    line: Seq<char>,
    lead: Seq<char>,
    digit: char,
    mark: char,
    rest: Seq<char>,
) -> bool {
    &&& is_lead(lead)
    &&& mark == '.' || mark == ')' || mark == ']'
    &&& rest.len() > 0
    &&& line == lead + (seq![digit, mark, ' '] + rest)
}

/// The options of lines are those of each line, in the order of the lines: none is left out and
/// none added.
pub proof fn law_options_are_those_of_each_line(all: Seq<Seq<char>>, line: Seq<char>)
    ensures
        lines_options(Seq::empty()) == Seq::<OptionModel>::empty(),
        lines_options(all.push(line)) == lines_options(all) + match line_option(line) {
            Some(option) => seq![option],
            None => Seq::<OptionModel>::empty(),
        },
{
    assert(all.push(line).drop_last() =~= all);
    assert(lines_options(all.push(line)) =~= lines_options(all) + match line_option(line) {
        Some(option) => seq![option],
        None => Seq::<OptionModel>::empty(),
    });
}

/// A text of at most 4096 bytes and 32 lines shows all the options on its lines as a menu, where
/// there are two or more of them, each has words, and no two have one key. No other text shows a
/// menu.
pub proof fn law_every_menu_is_shown_whole(screen: Seq<char>)
    ensures
        ({
            let found = lines_options(lines(screen));
            let is_menu = {
                &&& utf8_len(screen) <= 4096
                &&& lines(screen).len() <= 32
                &&& found.len() >= 2
                &&& forall|i: int| 0 <= i < found.len() ==> (#[trigger] found[i]).label.len() > 0
                &&& forall|i: int, j: int|
                    0 <= i < j < found.len() ==> (#[trigger] found[i]).key != (#[trigger] found[j]).key
            };
            &&& is_menu ==> menu_of(screen) == Some(found)
            &&& !is_menu ==> menu_of(screen) is None
        }),
{
}

/// Options stand for their keys and their words, one for one.
pub proof fn law_options_stand_for_keys_and_words(menu: Seq<MenuOption>, i: int)
    requires
        0 <= i < menu.len(),
    ensures
        menu_view(menu).len() == menu.len(),
        menu_view(menu)[i].key == menu[i].key@ && menu_view(menu)[i].label == menu[i].label@,
{
}

} // verus!
