use vstd::prelude::*;
use vstd::string::*;

use crate::status::Status;

verus! {

/// The prefix of a line that holds an item of the Todo list.
pub open spec fn todo_prefix() -> Seq<char> {
    seq!['T', 'O', 'D', 'O', ':', ' ']
}

/// The prefix of a line that holds an item of the Done list.
pub open spec fn done_prefix() -> Seq<char> {
    seq!['D', 'O', 'N', 'E', ':', ' ']
}

/// The prefix that marks an item of the list `s`.
pub open spec fn prefix_of(s: Status) -> Seq<char> {
    match s {
        Status::Todo => todo_prefix(),
        Status::Done => done_prefix(),
    }
}

/// What one line of the file holds: the list it belongs to and the title,
/// or nothing where the line starts with neither prefix.
pub open spec fn parse_line(line: Seq<char>) -> Option<(Status, Seq<char>)> {
    if todo_prefix().is_prefix_of(line) {
        Some((Status::Todo, line.skip(6)))
    } else if done_prefix().is_prefix_of(line) {
        Some((Status::Done, line.skip(6)))
    } else {
        None
    }
}

/// The characters of each string.
pub open spec fn texts(v: Seq<String>) -> Seq<Seq<char>> {
    v.map_values(|s: String| s@)
}

/// The titles of list `s`, in file order, that the lines hold.
pub open spec fn titles_of(lines: Seq<Seq<char>>, s: Status) -> Seq<Seq<char>>
    decreases lines.len(),
{
    if lines.len() == 0 {
        Seq::empty()
    } else {
        let rest = titles_of(lines.drop_last(), s);
        match parse_line(lines.last()) {
            Some((k, title)) => if k == s {
                rest.push(title)
            } else {
                rest
            },
            None => rest,
        }
    }
}

/// Every line starts with one of the two prefixes.
pub open spec fn well_formed(lines: Seq<Seq<char>>) -> bool {
    forall|i: int| 0 <= i < lines.len() ==> #[trigger] parse_line(lines[i]) is Some
}

/// The lines that hold the titles of list `s`, in order.
pub open spec fn encode_list(titles: Seq<Seq<char>>, s: Status) -> Seq<Seq<char>> {
    titles.map_values(|t: Seq<char>| prefix_of(s) + t)
}

/// The lines of a file: every Todo item, then every Done item.
pub open spec fn encode(todos: Seq<Seq<char>>, dones: Seq<Seq<char>>) -> Seq<Seq<char>> {
    encode_list(todos, Status::Todo) + encode_list(dones, Status::Done)
}

/// Whether `line` starts with `prefix`.
fn has_prefix(line: &str, prefix: &str) -> (r: bool)
    ensures
        r == prefix@.is_prefix_of(line@),
{
    let n = prefix.unicode_len();
    let m = line.unicode_len();
    if n > m {
        return false;
    }
    let mut i: usize = 0;
    while i < n
        invariant
            n == prefix@.len(),
            m == line@.len(),
            n <= m,
            i <= n,
            forall|j: int| 0 <= j < i ==> prefix@[j] == line@[j],
        decreases n - i,
    {
        if prefix.get_char(i) != line.get_char(i) {
            assert(prefix@[i as int] != line@.subrange(0, n as int)[i as int]);
            return false;
        }
        i += 1;
    }
    assert(prefix@ =~= line@.subrange(0, n as int));
    true
}

/// Reads one line of the file: its list and its title, or `None` where the
/// line starts with neither prefix.
pub fn parse_item(line: &str) -> (r: Option<(Status, String)>)
    ensures
        match r {
            Some((k, title)) => parse_line(line@) == Some((k, title@)),
            None => parse_line(line@) is None,
        },
{
    proof {
        reveal_strlit("TODO: ");
        reveal_strlit("DONE: ");
        assert("TODO: "@ =~= todo_prefix());
        assert("DONE: "@ =~= done_prefix());
    }
    if has_prefix(line, "TODO: ") {
        let len = line.unicode_len();
        let title = line.substring_char(6, len);
        assert(title@ =~= line@.skip(6));
        return Some((Status::Todo, String::from_str(title)));
    }
    if has_prefix(line, "DONE: ") {
        let len = line.unicode_len();
        let title = line.substring_char(6, len);
        assert(title@ =~= line@.skip(6));
        return Some((Status::Done, String::from_str(title)));
    }
    None
}

/// Appends the items of the file's lines to the two lists, in file order.
/// On the first line that starts with neither prefix it stops and returns
/// that line's number, counted from 1; the lists then hold what the lines
/// before it added.
pub fn load_state(todos: &mut Vec<String>, dones: &mut Vec<String>, lines: &Vec<String>) -> (r:
    Result<(), usize>)
    ensures
        r is Ok <==> well_formed(texts(lines@)),
        match r {
            Ok(()) => {
                &&& texts(final(todos)@) == texts(old(todos)@) + titles_of(
                    texts(lines@),
                    Status::Todo,
                )
                &&& texts(final(dones)@) == texts(old(dones)@) + titles_of(
                    texts(lines@),
                    Status::Done,
                )
            },
            Err(n) => {
                let before = texts(lines@).take(n - 1);
                &&& 1 <= n <= lines.len()
                &&& parse_line(lines@[n - 1]@) is None
                &&& well_formed(before)
                &&& texts(final(todos)@) == texts(old(todos)@) + titles_of(before, Status::Todo)
                &&& texts(final(dones)@) == texts(old(dones)@) + titles_of(before, Status::Done)
            },
        },
{
    let ghost t0 = texts(todos@);
    let ghost d0 = texts(dones@);
    let ghost all = texts(lines@);
    let mut i: usize = 0;
    while i < lines.len()
        invariant
            i <= lines.len(),
            all == texts(lines@),
            t0 == texts(old(todos)@),
            d0 == texts(old(dones)@),
            well_formed(all.take(i as int)),
            texts(todos@) == t0 + titles_of(all.take(i as int), Status::Todo),
            texts(dones@) == d0 + titles_of(all.take(i as int), Status::Done),
        decreases lines.len() - i,
    {
        let ghost t_before = todos@;
        let ghost d_before = dones@;
        assert(all.take(i + 1).drop_last() =~= all.take(i as int));
        assert(all.take(i + 1).last() == lines@[i as int]@);
        match parse_item(lines[i].as_str()) {
            Some((Status::Todo, title)) => {
                todos.push(title);
                assert(texts(todos@) =~= texts(t_before).push(lines@[i as int]@.skip(6)));
            },
            Some((Status::Done, title)) => {
                dones.push(title);
                assert(texts(dones@) =~= texts(d_before).push(lines@[i as int]@.skip(6)));
            },
            None => {
                assert(all[i as int] == lines@[i as int]@);
                assert(!well_formed(all));
                return Err(i + 1);
            },
        }
        assert forall|j: int| 0 <= j < i + 1 implies #[trigger] parse_line(all.take(i + 1)[j]) is Some by {
            if j < i {
                assert(all.take(i + 1)[j] == all.take(i as int)[j]);
            }
        }
        i += 1;
    }
    assert(all.take(i as int) =~= all);
    Ok(())
}

/// `prefix` followed by `title`.
pub(crate) fn item_line(prefix: &str, title: &String) -> (r: String)
    ensures
        r@ == prefix@ + title@,
{
    let mut line = String::from_str(prefix);
    line.append(title.as_str());
    line
}

/// The lines of the file that holds both lists: every Todo item, then every
/// Done item, each in list order, one line each.
pub fn save_state(todos: &Vec<String>, dones: &Vec<String>) -> (r: Vec<String>)
    ensures
        texts(r@) == encode(texts(todos@), texts(dones@)),
{
    proof {
        reveal_strlit("TODO: ");
        reveal_strlit("DONE: ");
        assert("TODO: "@ =~= todo_prefix());
        assert("DONE: "@ =~= done_prefix());
    }
    let ghost ts = texts(todos@);
    let ghost ds = texts(dones@);
    let mut lines: Vec<String> = Vec::new();
    let mut i: usize = 0;
    while i < todos.len()
        invariant
            i <= todos.len(),
            ts == texts(todos@),
            "TODO: "@ == todo_prefix(),
            texts(lines@) =~= encode_list(ts.take(i as int), Status::Todo),
        decreases todos.len() - i,
    {
        let ghost before = lines@;
        lines.push(item_line("TODO: ", &todos[i]));
        assert(texts(lines@) =~= texts(before).push(todo_prefix() + ts[i as int]));
        assert(ts.take(i + 1) =~= ts.take(i as int).push(ts[i as int]));
        i += 1;
    }
    assert(ts.take(i as int) =~= ts);
    let mut j: usize = 0;
    while j < dones.len()
        invariant
            j <= dones.len(),
            ds == texts(dones@),
            "DONE: "@ == done_prefix(),
            texts(lines@) =~= encode_list(ts, Status::Todo) + encode_list(
                ds.take(j as int),
                Status::Done,
            ),
        decreases dones.len() - j,
    {
        let ghost before = lines@;
        lines.push(item_line("DONE: ", &dones[j]));
        assert(texts(lines@) =~= texts(before).push(done_prefix() + ds[j as int]));
        assert(ds.take(j + 1) =~= ds.take(j as int).push(ds[j as int]));
        j += 1;
    }
    assert(ds.take(j as int) =~= ds);
    lines
}

/// A line made of the prefix of list `s` and a title reads back as that
/// list and that title.
pub proof fn lemma_parse_encoded_line(title: Seq<char>, s: Status)
    ensures
        parse_line(prefix_of(s) + title) == Some((s, title)),
{
    let line = prefix_of(s) + title;
    assert(line.subrange(0, 6) =~= prefix_of(s));
    assert(line.skip(6) =~= title);
    if s == Status::Done {
        assert(line[0] == 'D');
        assert(todo_prefix()[0] == 'T');
        assert(!todo_prefix().is_prefix_of(line)) by {
            if todo_prefix().is_prefix_of(line) {
                assert(line.subrange(0, 6)[0] == line[0]);
            }
        }
    }
}

/// The titles that two runs of lines hold, one after the other, are those
/// of the first run followed by those of the second.
pub proof fn lemma_titles_of_append(a: Seq<Seq<char>>, b: Seq<Seq<char>>, s: Status)
    ensures
        titles_of(a + b, s) == titles_of(a, s) + titles_of(b, s),
    decreases b.len(),
{
    if b.len() == 0 {
        assert(a + b =~= a);
        assert(titles_of(a, s) + titles_of(b, s) =~= titles_of(a, s));
    } else {
        assert((a + b).drop_last() =~= a + b.drop_last());
        assert((a + b).last() == b.last());
        lemma_titles_of_append(a, b.drop_last(), s);
        let rest = titles_of(b.drop_last(), s);
        match parse_line(b.last()) {
            Some((k, title)) => {
                if k == s {
                    assert(titles_of(a, s) + rest.push(title) =~= (titles_of(a, s) + rest).push(
                        title,
                    ));
                }
            },
            None => {},
        }
    }
}

/// The lines that encode the titles of list `s` hold exactly those titles
/// for `s`, and none for the other list.
pub proof fn lemma_titles_of_encoded_list(titles: Seq<Seq<char>>, s: Status, k: Status)
    ensures
        titles_of(encode_list(titles, s), k) == if s == k {
            titles
        } else {
            Seq::<Seq<char>>::empty()
        },
    decreases titles.len(),
{
    let lines = encode_list(titles, s);
    if titles.len() == 0 {
        assert(lines.len() == 0);
    } else {
        assert(lines.drop_last() =~= encode_list(titles.drop_last(), s));
        lemma_titles_of_encoded_list(titles.drop_last(), s, k);
        lemma_parse_encoded_line(titles.last(), s);
        assert(lines.last() == prefix_of(s) + titles.last());
        if s == k {
            assert(titles.drop_last().push(titles.last()) =~= titles);
        }
    }
}

/// Decoding the lines that encode two lists gives both lists back: every
/// line is well formed, and each list's titles return in their order and
/// under their own prefix.
pub proof fn lemma_round_trip(todos: Seq<Seq<char>>, dones: Seq<Seq<char>>)
    ensures
        well_formed(encode(todos, dones)),
        titles_of(encode(todos, dones), Status::Todo) == todos,
        titles_of(encode(todos, dones), Status::Done) == dones,
{
    let lines = encode(todos, dones);
    let a = encode_list(todos, Status::Todo);
    let b = encode_list(dones, Status::Done);
    assert forall|i: int| 0 <= i < lines.len() implies #[trigger] parse_line(lines[i]) is Some by {
        if i < a.len() {
            lemma_parse_encoded_line(todos[i], Status::Todo);
        } else {
            lemma_parse_encoded_line(dones[i - a.len()], Status::Done);
        }
    }
    lemma_titles_of_append(a, b, Status::Todo);
    lemma_titles_of_append(a, b, Status::Done);
    lemma_titles_of_encoded_list(todos, Status::Todo, Status::Todo);
    lemma_titles_of_encoded_list(dones, Status::Done, Status::Todo);
    lemma_titles_of_encoded_list(todos, Status::Todo, Status::Done);
    lemma_titles_of_encoded_list(dones, Status::Done, Status::Done);
    assert(todos + Seq::<Seq<char>>::empty() =~= todos);
    assert(Seq::<Seq<char>>::empty() + dones =~= dones);
}

/// The complete lines of `text`, each without its newline, and what
/// follows the last newline.
pub open spec fn split_acc(text: Seq<char>) -> (Seq<Seq<char>>, Seq<char>)
    decreases text.len(),
{
    if text.len() == 0 {
        (Seq::empty(), Seq::empty())
    } else {
        let (done, open) = split_acc(text.drop_last());
        if text.last() == '\n' {
            (done.push(open), Seq::empty())
        } else {
            (done, open.push(text.last()))
        }
    }
}

/// The lines of a file's text: the text cut at each newline, the newline
/// dropped; what follows the last newline is a line too unless it is empty.
pub open spec fn lines_of(text: Seq<char>) -> Seq<Seq<char>> {
    let (done, open) = split_acc(text);
    if open.len() == 0 {
        done
    } else {
        done.push(open)
    }
}

/// The text of a file whose lines are `lines`: each line followed by a
/// newline.
pub open spec fn text_of(lines: Seq<Seq<char>>) -> Seq<char>
    decreases lines.len(),
{
    if lines.len() == 0 {
        Seq::empty()
    } else {
        text_of(lines.drop_last()) + lines.last() + seq!['\n']
    }
}

/// No line holds a newline.
pub open spec fn single_lines(lines: Seq<Seq<char>>) -> bool {
    forall|i: int| 0 <= i < lines.len() ==> !(#[trigger] lines[i]).contains('\n')
}

/// Cuts a file's text into its lines.
pub fn split_lines(text: &str) -> (r: Vec<String>)
    ensures
        texts(r@) == lines_of(text@),
{
    let n = text.unicode_len();
    let mut lines: Vec<String> = Vec::new();
    let mut start: usize = 0;
    let mut i: usize = 0;
    while i < n
        invariant
            n == text@.len(),
            start <= i <= n,
            split_acc(text@.take(i as int)) == (texts(lines@), text@.subrange(start as int, i as int)),
        decreases n - i,
    {
        let ghost before = lines@;
        assert(text@.take(i + 1).drop_last() =~= text@.take(i as int));
        assert(text@.take(i + 1).last() == text@[i as int]);
        if text.get_char(i) == '\n' {
            let line = String::from_str(text.substring_char(start, i));
            lines.push(line);
            assert(texts(lines@) =~= texts(before).push(text@.subrange(start as int, i as int)));
            start = i + 1;
            assert(text@.subrange(start as int, i + 1) =~= Seq::<char>::empty());
        } else {
            assert(text@.subrange(start as int, i + 1) =~= text@.subrange(start as int, i as int).push(
                text@[i as int],
            ));
        }
        i += 1;
    }
    assert(text@.take(n as int) =~= text@);
    if start < n {
        let ghost before = lines@;
        let line = String::from_str(text.substring_char(start, n));
        lines.push(line);
        assert(texts(lines@) =~= texts(before).push(text@.subrange(start as int, n as int)));
    }
    lines
}

/// The text of a file whose lines are `lines`: each line followed by a
/// newline.
pub fn join_lines(lines: &Vec<String>) -> (r: String)
    ensures
        r@ == text_of(texts(lines@)),
{
    proof {
        reveal_strlit("\n");
        assert("\n"@ =~= seq!['\n']);
    }
    let ghost ls = texts(lines@);
    let mut text = String::new();
    let mut i: usize = 0;
    while i < lines.len()
        invariant
            i <= lines.len(),
            ls == texts(lines@),
            "\n"@ == seq!['\n'],
            text@ == text_of(ls.take(i as int)),
        decreases lines.len() - i,
    {
        text.append(lines[i].as_str());
        text.append("\n");
        assert(ls.take(i + 1).drop_last() =~= ls.take(i as int));
        i += 1;
    }
    assert(ls.take(i as int) =~= ls);
    text
}

/// Appending characters without a newline extends the open line.
pub proof fn lemma_split_acc_append(t: Seq<char>, x: Seq<char>)
    requires
        !x.contains('\n'),
    ensures
        split_acc(t + x) == (split_acc(t).0, split_acc(t).1 + x),
    decreases x.len(),
{
    if x.len() == 0 {
        assert(t + x =~= t);
        assert(split_acc(t).1 + x =~= split_acc(t).1);
    } else {
        let y = x.drop_last();
        assert(!y.contains('\n')) by {
            if y.contains('\n') {
                let k = choose|k: int| 0 <= k < y.len() && y[k] == '\n';
                assert(x[k] == '\n');
            }
        }
        assert(x.last() != '\n') by {
            assert(x[x.len() - 1] == x.last());
        }
        lemma_split_acc_append(t, y);
        assert((t + x).drop_last() =~= t + y);
        assert((t + x).last() == x.last());
        assert(split_acc(t).1 + y.push(x.last()) =~= split_acc(t).1 + x);
        assert((split_acc(t).1 + y).push(x.last()) =~= split_acc(t).1 + x);
    }
}

/// Cutting the text of lines that hold no newline gives those lines back.
pub proof fn lemma_lines_of_text_of(lines: Seq<Seq<char>>)
    requires
        single_lines(lines),
    ensures
        split_acc(text_of(lines)) == (lines, Seq::<char>::empty()),
        lines_of(text_of(lines)) == lines,
    decreases lines.len(),
{
    if lines.len() > 0 {
        let rest = lines.drop_last();
        let x = lines.last();
        assert(single_lines(rest)) by {
            assert forall|i: int| 0 <= i < rest.len() implies !(#[trigger] rest[i]).contains('\n') by {
                assert(rest[i] == lines[i]);
            }
        }
        assert(!x.contains('\n')) by {
            assert(lines[lines.len() - 1] == x);
        }
        lemma_lines_of_text_of(rest);
        let t = text_of(rest);
        lemma_split_acc_append(t, x);
        assert(Seq::<char>::empty() + x =~= x);
        let whole = t + x + seq!['\n'];
        assert(whole.drop_last() =~= t + x);
        assert(whole.last() == '\n');
        assert(rest.push(x) =~= lines);
    }
}

/// Cutting the text of a file that holds two lists, none of whose titles
/// holds a newline, and decoding its lines gives both lists back in order.
pub proof fn lemma_text_round_trip(todos: Seq<Seq<char>>, dones: Seq<Seq<char>>)
    requires
        single_lines(todos),
        single_lines(dones),
    ensures
        lines_of(text_of(encode(todos, dones))) == encode(todos, dones),
        well_formed(lines_of(text_of(encode(todos, dones)))),
        titles_of(lines_of(text_of(encode(todos, dones))), Status::Todo) == todos,
        titles_of(lines_of(text_of(encode(todos, dones))), Status::Done) == dones,
{
    let lines = encode(todos, dones);
    let a = encode_list(todos, Status::Todo);
    assert forall|i: int| 0 <= i < lines.len() implies !(#[trigger] lines[i]).contains('\n') by {
        let (p, t) = if i < a.len() {
            (todo_prefix(), todos[i])
        } else {
            (done_prefix(), dones[i - a.len()])
        };
        assert(lines[i] == p + t);
        if lines[i].contains('\n') {
            let k = choose|k: int| 0 <= k < lines[i].len() && lines[i][k] == '\n';
            if k >= 6 {
                assert(t[k - 6] == '\n');
            }
        }
    }
    lemma_lines_of_text_of(lines);
    lemma_round_trip(todos, dones);
}

} // verus!
