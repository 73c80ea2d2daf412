//! The keychain access groups in a property list of entitlements.

use crate::text::{chars_of, matches_at};
use vstd::prelude::*;

verus! {

/// Where `mark` first occurs in `s`.
pub open spec fn find(s: Seq<char>, mark: Seq<char>) -> Option<int>
    decreases s.len(),
{
    if s.len() < mark.len() {
        None
    } else if s.subrange(0, mark.len() as int) == mark {
        Some(0)
    } else if s.len() == 0 {
        None
    } else {
        match find(s.drop_first(), mark) {
            Some(i) => Some(i + 1),
            None => None,
        }
    }
}

/// The text in front of the first `mark`.
pub open spec fn before(s: Seq<char>, mark: Seq<char>) -> Option<Seq<char>> {
    match find(s, mark) {
        Some(i) => Some(s.subrange(0, i)),
        None => None,
    }
}

/// The text behind the first `mark`.
pub open spec fn after(s: Seq<char>, mark: Seq<char>) -> Option<Seq<char>> {
    match find(s, mark) {
        Some(i) => Some(s.subrange(i + mark.len(), s.len() as int)),
        None => None,
    }
}

/// Space, tab, line feed or carriage return.
pub open spec fn blank(c: char) -> bool {
    c == ' ' || c == '\t' || c == '\n' || c == '\r'
}

/// `s` without the blanks at its beginning.
pub open spec fn unindented(s: Seq<char>) -> Seq<char>
    decreases s.len(),
{
    if s.len() > 0 && blank(s[0]) {
        unindented(s.drop_first())
    } else {
        s
    }
}

/// The strings in the body of an array, in order, as they are written.
pub open spec fn strings(body: Seq<char>) -> Seq<Seq<char>>
    decreases body.len(),
{
    match after(body, "<string>"@) {
        None => Seq::empty(),
        Some(rest) => match (before(rest, "</string>"@), after(rest, "</string>"@)) {
            (Some(item), Some(tail)) => {
                proof {
                    reveal_strlit("<string>");
                    lemma_find(body, "<string>"@);
                    lemma_find(rest, "</string>"@);
                }
                seq![item] + strings(tail)
            },
            _ => Seq::empty(),
        },
    }
}

/// The array behind the access-groups key: its body, if there is one.
pub open spec fn group_array(list: Seq<char>) -> Option<Seq<char>> {
    match after(list, "<key>keychain-access-groups</key>"@) {
        None => None,
        Some(value) => {
            let value = unindented(value);
            if find(value, "<array>"@) == Some(0int) {
                before(value.subrange("<array>"@.len() as int, value.len() as int), "</array>"@)
            } else {
                None
            }
        },
    }
}

/// The keychain access groups that the property list names.
pub open spec fn access_groups(list: Seq<char>) -> Seq<Seq<char>> {
    match group_array(list) {
        Some(body) => strings(body),
        None => Seq::empty(),
    }
}

/// What was found lies inside the text.
pub proof fn lemma_find(s: Seq<char>, mark: Seq<char>)
    ensures
        find(s, mark) matches Some(i) ==> 0 <= i && i + mark.len() <= s.len(),
    decreases s.len(),
{
    if s.len() >= mark.len() && s.subrange(0, mark.len() as int) != mark && s.len() > 0 {
        lemma_find(s.drop_first(), mark);
    }
}

/// Where `mark` first occurs in `s` from `from` up to `to`.
fn find_in(s: &Vec<char>, mark: &Vec<char>, from: usize, to: usize) -> (r: Option<usize>)
    requires
        from <= to <= s@.len(),
        mark@.len() > 0,
    ensures
        match find(s@.subrange(from as int, to as int), mark@) {
            Some(i) => r == Some((from + i) as usize) && 0 <= i && from + i + mark@.len() <= to,
            None => r is None,
        },
{
    proof {
        lemma_find(s@.subrange(from as int, to as int), mark@);
    }
    let ghost whole = find(s@.subrange(from as int, to as int), mark@);
    let mut i: usize = from;
    while i < to && to - i >= mark.len()
        invariant
            from <= i <= to <= s@.len(),
            mark@.len() > 0,
            whole == find(s@.subrange(from as int, to as int), mark@),
            whole == (match find(s@.subrange(i as int, to as int), mark@) {
                Some(k) => Some(k + i - from),
                None => None,
            }),
        decreases to - i,
    {
        let ghost rest = s@.subrange(i as int, to as int);
        assert(rest.subrange(0, mark@.len() as int) =~= s@.subrange(i as int, i + mark@.len()));
        if matches_at(s, mark, i) {
            return Some(i);
        }
        assert(rest.drop_first() =~= s@.subrange(i + 1, to as int));
        i += 1;
    }
    None
}

/// Where the blanks from `from` on end.
fn skip_blanks(s: &Vec<char>, from: usize) -> (r: usize)
    requires
        from <= s@.len(),
    ensures
        from <= r <= s@.len(),
        unindented(s@.subrange(from as int, s@.len() as int)) == s@.subrange(
            r as int,
            s@.len() as int,
        ),
{
    let mut i: usize = from;
    while i < s.len() && (s[i] == ' ' || s[i] == '\t' || s[i] == '\n' || s[i] == '\r')
        invariant
            from <= i <= s@.len(),
            unindented(s@.subrange(from as int, s@.len() as int)) == unindented(
                s@.subrange(i as int, s@.len() as int),
            ),
        decreases s@.len() - i,
    {
        assert(s@.subrange(i as int, s@.len() as int).drop_first() =~= s@.subrange(
            i + 1,
            s@.len() as int,
        ));
        i += 1;
    }
    i
}

/// Whether `group` is one of the strings in `s` from `from` up to `to`.
fn has_string(s: &Vec<char>, from: usize, to: usize, group: &Vec<char>) -> (r: bool)
    requires
        from <= to <= s@.len(),
    ensures
        r == strings(s@.subrange(from as int, to as int)).contains(group@),
{
    let open = chars_of("<string>");
    let close = chars_of("</string>");
    proof {
        reveal_strlit("<string>");
        reveal_strlit("</string>");
    }
    let mut p: usize = from;
    while p < to
        invariant
            from <= p <= to <= s@.len(),
            open@ == "<string>"@,
            close@ == "</string>"@,
            open@.len() == 8,
            close@.len() == 9,
            strings(s@.subrange(from as int, to as int)).contains(group@) == strings(
                s@.subrange(p as int, to as int),
            ).contains(group@),
        decreases to - p,
    {
        let ghost body = s@.subrange(p as int, to as int);
        proof {
            lemma_find(body, open@);
        }
        let start: usize = match find_in(s, &open, p, to) {
            None => {
                assert(strings(body) =~= Seq::empty());
                return false;
            },
            Some(i) => i + 8,
        };
        let ghost rest = s@.subrange(start as int, to as int);
        assert(after(body, open@) == Some(rest)) by {
            assert(body.subrange(start - p, body.len() as int) =~= rest);
        }
        proof {
            lemma_find(rest, close@);
        }
        let end: usize = match find_in(s, &close, start, to) {
            None => {
                assert(strings(body) =~= Seq::empty());
                return false;
            },
            Some(i) => i,
        };
        let ghost item = s@.subrange(start as int, end as int);
        let ghost tail = s@.subrange(end + 9, to as int);
        proof {
            assert(rest.subrange(0, end - start) =~= item);
            assert(rest.subrange(end - start + 9, rest.len() as int) =~= tail);
            assert(strings(body) == seq![item] + strings(tail));
            lemma_contains_head(item, strings(tail), group@);
        }
        if end - start == group.len() && matches_at(s, group, start) {
            return true;
        }
        p = end + 9;
    }
    proof {
        let none = s@.subrange(p as int, to as int);
        assert(none.len() == 0);
        assert(strings(none) =~= Seq::empty());
    }
    false
}

proof fn lemma_contains_head(head: Seq<char>, tail: Seq<Seq<char>>, x: Seq<char>)
    ensures
        (seq![head] + tail).contains(x) <==> head == x || tail.contains(x),
{
    let all = seq![head] + tail;
    if all.contains(x) {
        let i = choose|i: int| 0 <= i < all.len() && all[i] == x;
        if i > 0 {
            assert(tail[i - 1] == x);
        }
    }
    if head == x {
        assert(all[0] == x);
    }
    if tail.contains(x) {
        let i = choose|i: int| 0 <= i < tail.len() && tail[i] == x;
        assert(all[i + 1] == x);
    }
}

/// Whether the property list names `group` as a keychain access group.
pub fn names_group(list: &str, group: &str) -> (r: bool)
    ensures
        r == access_groups(list@).contains(group@),
{
    let s = chars_of(list);
    let group = chars_of(group);
    let key = chars_of("<key>keychain-access-groups</key>");
    let open = chars_of("<array>");
    let close = chars_of("</array>");
    proof {
        reveal_strlit("<key>keychain-access-groups</key>");
        reveal_strlit("<array>");
        reveal_strlit("</array>");
        lemma_find(s@, key@);
        assert(s@.subrange(0, s@.len() as int) =~= s@);
    }
    let n: usize = s.len();
    let value: usize = match find_in(&s, &key, 0, n) {
        None => {
            return false;
        },
        Some(i) => skip_blanks(&s, i + key.len()),
    };
    let ghost rest = s@.subrange(value as int, n as int);
    if n - value < open.len() || !matches_at(&s, &open, value) {
        assert(find(rest, open@) != Some(0int)) by {
            if rest.len() >= open@.len() {
                assert(rest.subrange(0, open@.len() as int) =~= s@.subrange(
                    value as int,
                    value + open@.len(),
                ));
                lemma_find(rest.drop_first(), open@);
            }
        }
        return false;
    }
    assert(rest.subrange(0, open@.len() as int) =~= s@.subrange(
        value as int,
        value + open@.len(),
    ));
    let start: usize = value + open.len();
    assert(rest.subrange(open@.len() as int, rest.len() as int) =~= s@.subrange(
        start as int,
        n as int,
    ));
    match find_in(&s, &close, start, n) {
        None => false,
        Some(end) => {
            assert(s@.subrange(start as int, n as int).subrange(0, end - start) =~= s@.subrange(
                start as int,
                end as int,
            ));
            has_string(&s, start, end, &group)
        },
    }
}

/// A text without angle brackets.
pub open spec fn plain(s: Seq<char>) -> bool {
    forall|i: int| 0 <= i < s.len() ==> #[trigger] s[i] != '<'
}

/// A text of blanks.
pub open spec fn all_blank(s: Seq<char>) -> bool {
    forall|i: int|
        0 <= i < s.len() ==> #[trigger] s[i] == ' ' || s[i] == '\t' || s[i] == '\n' || s[i] == '\r'
}

/// The strings of an array, as a property list writes them, with `space` around each.
pub open spec fn rendered_items(groups: Seq<Seq<char>>, space: Seq<char>) -> Seq<char>
    decreases groups.len(),
{
    if groups.len() == 0 {
        space
    } else {
        space + "<string>"@ + groups[0] + "</string>"@ + rendered_items(groups.drop_first(), space)
    }
}

/// An array of strings, as a property list writes it.
pub open spec fn rendered(groups: Seq<Seq<char>>, space: Seq<char>) -> Seq<char> {
    "<array>"@ + rendered_items(groups, space) + "</array>"@
}

/// `mark` stands in `s` at `i`.
spec fn begins_at(s: Seq<char>, mark: Seq<char>, i: int) -> bool {
    s.subrange(i, i + mark.len()) == mark
}

/// A mark that first stands behind `a`, with something behind it.
proof fn lemma_find_behind(a: Seq<char>, mark: Seq<char>, b: Seq<char>)
    requires
        mark.len() > 0,
        forall|i: int| 0 <= i < a.len() ==> !#[trigger] begins_at(a + mark + b, mark, i),
    ensures
        find(a + mark + b, mark) == Some(a.len() as int),
    decreases a.len(),
{
    let s = a + mark + b;
    if a.len() == 0 {
        assert(s.subrange(0, mark.len() as int) =~= mark);
    } else {
        let rest = a.drop_first();
        assert(s.drop_first() =~= rest + mark + b);
        assert forall|i: int| 0 <= i < rest.len() implies !#[trigger] begins_at(
            rest + mark + b,
            mark,
            i,
        ) by {
            assert((rest + mark + b).subrange(i, i + mark.len()) =~= s.subrange(
                i + 1,
                i + 1 + mark.len(),
            ));
            assert(!begins_at(s, mark, i + 1));
        }
        lemma_find_behind(rest, mark, b);
        assert(!begins_at(s, mark, 0));
    }
}

/// Behind a mark, a text is what is behind the mark.
proof fn lemma_after_behind(a: Seq<char>, mark: Seq<char>, b: Seq<char>)
    requires
        find(a + mark + b, mark) == Some(a.len() as int),
    ensures
        before(a + mark + b, mark) == Some(a),
        after(a + mark + b, mark) == Some(b),
{
    let s = a + mark + b;
    assert(s.subrange(0, a.len() as int) =~= a);
    assert(s.subrange(a.len() as int + mark.len(), s.len() as int) =~= b);
}

proof fn lemma_strings(groups: Seq<Seq<char>>, space: Seq<char>)
    requires
        forall|i: int| 0 <= i < groups.len() ==> plain(#[trigger] groups[i]),
        plain(space),
    ensures
        strings(rendered_items(groups, space)) == groups,
    decreases groups.len(),
{
    let open = "<string>"@;
    let close = "</string>"@;
    reveal_strlit("<string>");
    reveal_strlit("</string>");
    if groups.len() == 0 {
        lemma_not_found(space, open);
        assert(strings(space) =~= groups);
    } else {
        let item = groups[0];
        let tail = rendered_items(groups.drop_first(), space);
        let body = rendered_items(groups, space);
        let rest = item + close + tail;
        assert(body =~= space + open + rest);
        assert forall|i: int| 0 <= i < space.len() implies !#[trigger] begins_at(
            space + open + rest,
            open,
            i,
        ) by {
            assert((space + open + rest).subrange(i, i + open.len())[0] == space[i]);
            assert(open[0] == '<');
        }
        lemma_find_behind(space, open, rest);
        lemma_after_behind(space, open, rest);
        assert forall|i: int| 0 <= i < item.len() implies !#[trigger] begins_at(rest, close, i) by {
            assert(rest.subrange(i, i + close.len())[0] == item[i]);
            assert(close[0] == '<');
        }
        lemma_find_behind(item, close, tail);
        lemma_after_behind(item, close, tail);
        lemma_strings(groups.drop_first(), space);
        assert(strings(body) == seq![item] + strings(tail));
        assert(seq![item] + groups.drop_first() =~= groups);
    }
}

/// A mark that begins with `<` is not found in a text without it.
proof fn lemma_not_found(s: Seq<char>, mark: Seq<char>)
    requires
        plain(s),
        mark.len() > 0,
        mark[0] == '<',
    ensures
        find(s, mark) is None,
    decreases s.len(),
{
    if s.len() >= mark.len() {
        assert(s.subrange(0, mark.len() as int)[0] == s[0]);
        let rest = s.drop_first();
        assert forall|i: int| 0 <= i < rest.len() implies #[trigger] rest[i] != '<' by {
            assert(rest[i] == s[i + 1]);
        }
        lemma_not_found(rest, mark);
    }
}

/// No `</array>` begins inside the strings of an array.
proof fn lemma_no_end_inside(groups: Seq<Seq<char>>, space: Seq<char>, behind: Seq<char>, i: int)
    requires
        forall|k: int| 0 <= k < groups.len() ==> plain(#[trigger] groups[k]),
        plain(space),
        0 <= i < rendered_items(groups, space).len(),
        behind.len() >= 8,
    ensures
        (rendered_items(groups, space) + behind).subrange(i, i + 8) != "</array>"@,
    decreases groups.len(),
{
    reveal_strlit("<string>");
    reveal_strlit("</string>");
    reveal_strlit("</array>");
    let end = "</array>"@;
    let body = rendered_items(groups, space);
    let all = body + behind;
    let here = all.subrange(i, i + 8);
    let m = space.len() as int;
    assert(end[0] == '<');
    if i < m {
        assert(here[0] == space[i]);
    } else {
        let item = groups[0];
        let tail = rendered_items(groups.drop_first(), space);
        let n = m + 8 + item.len() + 9;
        assert(body.len() == n + tail.len());
        if i >= n {
            lemma_no_end_inside(groups.drop_first(), space, behind, i - n);
            assert(here =~= (tail + behind).subrange(i - n, i - n + 8));
        } else if m + 8 <= i < m + 8 + item.len() {
            assert(here[0] == item[i - m - 8]);
        } else if i < m + 8 {
            assert(here[0] == "<string>"@[i - m]);
            if i == m {
                assert(here[1] == "<string>"@[1]);
            }
        } else {
            assert(here[0] == "</string>"@[i - m - 8 - item.len()]);
            if i == m + 8 + item.len() {
                assert(here[2] == "</string>"@[2]);
            }
        }
    }
}

proof fn lemma_unindented(gap: Seq<char>, s: Seq<char>)
    requires
        all_blank(gap),
        s.len() > 0,
        s[0] == '<',
    ensures
        unindented(gap + s) == s,
    decreases gap.len(),
{
    if gap.len() == 0 {
        assert(gap + s =~= s);
    } else {
        let rest = gap.drop_first();
        assert((gap + s)[0] == gap[0]);
        assert((gap + s).drop_first() =~= rest + s);
        assert forall|i: int| 0 <= i < rest.len() implies #[trigger] rest[i] == ' ' || rest[i]
            == '\t' || rest[i] == '\n' || rest[i] == '\r' by {
            assert(rest[i] == gap[i + 1]);
        }
        lemma_unindented(rest, s);
    }
}

/// A property list that names access groups names exactly those, in their order: from
/// what an array of them is written as, with anything in front of the key, blanks in front
/// of the array, space around its strings and anything behind it, they are read back.
pub proof fn law_list_names_its_groups(
    head: Seq<char>,
    gap: Seq<char>,
    groups: Seq<Seq<char>>,
    space: Seq<char>,
    tail: Seq<char>,
)
    requires
        find(
            head + "<key>keychain-access-groups</key>"@,
            "<key>keychain-access-groups</key>"@,
        ) == Some(head.len() as int),
        all_blank(gap),
        plain(space),
        forall|i: int| 0 <= i < groups.len() ==> plain(#[trigger] groups[i]),
    ensures
        access_groups(
            head + "<key>keychain-access-groups</key>"@ + gap + rendered(groups, space) + tail,
        ) == groups,
{
    let key = "<key>keychain-access-groups</key>"@;
    let open = "<array>"@;
    let end = "</array>"@;
    reveal_strlit("<key>keychain-access-groups</key>");
    reveal_strlit("<array>");
    reveal_strlit("</array>");
    let items = rendered_items(groups, space);
    let value = rendered(groups, space) + tail;
    let list = head + key + gap + rendered(groups, space) + tail;
    assert(list =~= head + key + (gap + value));
    lemma_find_stays(head, key, gap + value);
    lemma_after_behind(head, key, gap + value);
    assert(value[0] == open[0]);
    lemma_unindented(gap, value);
    let none = Seq::<char>::empty();
    assert(value =~= none + open + (items + end + tail));
    lemma_find_behind(none, open, items + end + tail);
    assert(value.subrange(open.len() as int, value.len() as int) =~= items + end + tail);
    assert forall|i: int| 0 <= i < items.len() implies !#[trigger] begins_at(
        items + end + tail,
        end,
        i,
    ) by {
        lemma_no_end_inside(groups, space, end + tail, i);
        assert(items + (end + tail) =~= items + end + tail);
    }
    lemma_find_behind(items, end, tail);
    lemma_after_behind(items, end, tail);
    lemma_strings(groups, space);
}

/// What is found does not depend on what stands behind it.
proof fn lemma_find_stays(a: Seq<char>, mark: Seq<char>, b: Seq<char>)
    requires
        mark.len() > 0,
        find(a + mark, mark) == Some(a.len() as int),
    ensures
        find(a + mark + b, mark) == Some(a.len() as int),
    decreases a.len(),
{
    let s = a + mark;
    let t = a + mark + b;
    assert(t.subrange(0, mark.len() as int) =~= s.subrange(0, mark.len() as int));
    if a.len() > 0 {
        assert(s.subrange(0, mark.len() as int) != mark);
        let rest = a.drop_first();
        assert(s.drop_first() =~= rest + mark);
        assert(t.drop_first() =~= rest + mark + b);
        lemma_find_stays(rest, mark, b);
    } else {
        assert(t.subrange(0, mark.len() as int) =~= mark);
    }
}

/// Where the key is not there, no group is named.
pub proof fn law_no_key_no_groups(list: Seq<char>)
    requires
        find(list, "<key>keychain-access-groups</key>"@) is None,
    ensures
        access_groups(list).len() == 0,
{
}

/// A mark is found at the first place where the text has it, and not found exactly where
/// the text nowhere has it.
pub proof fn law_find(s: Seq<char>, mark: Seq<char>, k: int)
    requires
        mark.len() > 0,
    ensures
        find(s, mark) matches Some(i) ==> 0 <= i <= s.len() - mark.len() && s.subrange(
            i,
            i + mark.len(),
        ) == mark && (0 <= k < i ==> s.subrange(k, k + mark.len()) != mark),
        find(s, mark) is None && 0 <= k <= s.len() - mark.len() ==> s.subrange(k, k + mark.len())
            != mark,
    decreases s.len(),
{
    if s.len() >= mark.len() && s.subrange(0, mark.len() as int) != mark {
        let rest = s.drop_first();
        law_find(rest, mark, k - 1);
        if let Some(i) = find(rest, mark) {
            assert(rest.subrange(i, i + mark.len()) =~= s.subrange(i + 1, i + 1 + mark.len()));
        }
        if 1 <= k <= s.len() - mark.len() {
            assert(rest.subrange(k - 1, k - 1 + mark.len()) =~= s.subrange(k, k + mark.len()));
        }
    }
}

}
