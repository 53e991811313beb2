use vstd::prelude::*;

use crate::codec::{item_line, texts};
use crate::list::{cursor_ok, list_down, list_transfer, list_up, repaired_cursor};
use crate::status::{other, Status};
use crate::ui::{Paint, Ui, HIGHLIGHT_PAIR, REGULAR_PAIR};

verus! {

/// The key that ends the session.
pub const QUIT_KEY: char = 'q';

/// The key that moves the cursor of the active list up.
pub const UP_KEY: char = 'w';

/// The key that moves the cursor of the active list down.
pub const DOWN_KEY: char = 's';

/// The key that moves the item under the cursor to the other list.
pub const CONFIRM_KEY: char = '\n';

/// The key that switches to the other list.
pub const TAB_KEY: char = '\t';

/// The whole state of a session, as values.
pub ghost struct AppView {
    pub todos: Seq<Seq<char>>,
    pub dones: Seq<Seq<char>>,
    pub todo_curr: nat,
    pub done_curr: nat,
    pub tab: Status,
    pub quit: bool,
}

/// The two lists, their cursors, the active tab and whether the session
/// has ended.
pub struct TodoApp {
    pub todos: Vec<String>,
    pub dones: Vec<String>,
    pub todo_curr: usize,
    pub done_curr: usize,
    pub tab: Status,
    pub quit: bool,
}

impl View for TodoApp {
    type V = AppView;

    open spec fn view(&self) -> AppView {
        AppView {
            todos: texts(self.todos@),
            dones: texts(self.dones@),
            todo_curr: self.todo_curr as nat,
            done_curr: self.done_curr as nat,
            tab: self.tab,
            quit: self.quit,
        }
    }
}

/// Both cursors satisfy the cursor invariant of their lists.
pub open spec fn cursors_ok(v: AppView) -> bool {
    cursor_ok(v.todos.len(), v.todo_curr) && cursor_ok(v.dones.len(), v.done_curr)
}

/// The cursor one item up, staying at the top.
pub open spec fn up(cur: nat) -> nat {
    if cur > 0 {
        (cur - 1) as nat
    } else {
        cur
    }
}

/// The cursor one item down in a list of `len` items, staying at the last.
pub open spec fn down(len: nat, cur: nat) -> nat {
    if cur + 1 < len {
        cur + 1
    } else {
        cur
    }
}

/// Moves the item under `cur` from `src` to the end of `dst`: the new
/// destination, source and source cursor.
pub open spec fn transfer(dst: Seq<Seq<char>>, src: Seq<Seq<char>>, cur: nat) -> (
    Seq<Seq<char>>,
    Seq<Seq<char>>,
    nat,
) {
    if cur < src.len() {
        (dst.push(src[cur as int]), src.remove(cur as int), repaired_cursor(cur, (src.len() - 1) as nat))
    } else {
        (dst, src, cur)
    }
}

/// The state after one key. An ended session takes no more keys.
pub open spec fn step(v: AppView, key: char) -> AppView {
    if v.quit {
        v
    } else if key == QUIT_KEY {
        AppView { quit: true, ..v }
    } else if key == UP_KEY {
        match v.tab {
            Status::Todo => AppView { todo_curr: up(v.todo_curr), ..v },
            Status::Done => AppView { done_curr: up(v.done_curr), ..v },
        }
    } else if key == DOWN_KEY {
        match v.tab {
            Status::Todo => AppView { todo_curr: down(v.todos.len(), v.todo_curr), ..v },
            Status::Done => AppView { done_curr: down(v.dones.len(), v.done_curr), ..v },
        }
    } else if key == CONFIRM_KEY {
        match v.tab {
            Status::Todo => {
                let (d, s, c) = transfer(v.dones, v.todos, v.todo_curr);
                AppView { dones: d, todos: s, todo_curr: c, ..v }
            },
            Status::Done => {
                let (d, s, c) = transfer(v.todos, v.dones, v.done_curr);
                AppView { todos: d, dones: s, done_curr: c, ..v }
            },
        }
    } else if key == TAB_KEY {
        AppView { tab: other(v.tab), ..v }
    } else {
        v
    }
}

/// The state after a sequence of keys, in order.
pub open spec fn run(v: AppView, keys: Seq<char>) -> AppView
    decreases keys.len(),
{
    if keys.len() == 0 {
        v
    } else {
        step(run(v, keys.drop_last()), keys.last())
    }
}

/// The list that the tab shows.
pub open spec fn active_items(v: AppView) -> Seq<Seq<char>> {
    match v.tab {
        Status::Todo => v.todos,
        Status::Done => v.dones,
    }
}

/// The cursor of the list that the tab shows.
pub open spec fn active_cursor(v: AppView) -> nat {
    match v.tab {
        Status::Todo => v.todo_curr,
        Status::Done => v.done_curr,
    }
}

/// The first line of a frame, which names the tabs and marks the active one.
pub open spec fn header(tab: Status) -> Seq<char> {
    match tab {
        Status::Todo => "[TODO] DONE "@,
        Status::Done => " TODO [DONE]"@,
    }
}

/// The second line of a frame.
pub open spec fn separator() -> Seq<char> {
    "------------"@
}

/// What stands before each title of the list that the tab shows.
pub open spec fn marker(tab: Status) -> Seq<char> {
    match tab {
        Status::Todo => "- [] "@,
        Status::Done => "- [x] "@,
    }
}

/// One key keeps both cursors within their lists.
pub proof fn lemma_step_keeps_cursors(v: AppView, key: char)
    requires
        cursors_ok(v),
    ensures
        cursors_ok(step(v, key)),
{
}

/// Whatever keys come, in whatever order, both cursors stay within their
/// lists: an index into a non-empty list, 0 for an empty one.
pub proof fn lemma_cursors_stay_in_bounds(v: AppView, keys: Seq<char>)
    requires
        cursors_ok(v),
    ensures
        cursors_ok(run(v, keys)),
    decreases keys.len(),
{
    if keys.len() > 0 {
        lemma_cursors_stay_in_bounds(v, keys.drop_last());
        lemma_step_keeps_cursors(run(v, keys.drop_last()), keys.last());
    }
}

proof fn lemma_texts_push(v: Seq<String>, s: String)
    ensures
        texts(v.push(s)) == texts(v).push(s@),
{
    assert(texts(v.push(s)) =~= texts(v).push(s@));
}

proof fn lemma_texts_remove(v: Seq<String>, i: int)
    requires
        0 <= i < v.len(),
    ensures
        texts(v.remove(i)) == texts(v).remove(i),
{
    assert(texts(v.remove(i)) =~= texts(v).remove(i));
}

impl TodoApp {
    /// A session on the Todo tab with both cursors at the top.
    pub fn new(todos: Vec<String>, dones: Vec<String>) -> (r: TodoApp)
        ensures
            r@ == (AppView {
                todos: texts(todos@),
                dones: texts(dones@),
                todo_curr: 0,
                done_curr: 0,
                tab: Status::Todo,
                quit: false,
            }),
            cursors_ok(r@),
    {
        TodoApp { todos, dones, todo_curr: 0, done_curr: 0, tab: Status::Todo, quit: false }
    }

    /// The active list, its cursor, and the other list, so that moves and
    /// transfers need not look at the tab.
    pub fn active_list_and_cursor(&mut self) -> (r: (&mut Vec<String>, &mut usize, &mut Vec<String>))
        ensures
            old(self).tab == Status::Todo ==> {
                &&& *r.0 == old(self).todos
                &&& *r.1 == old(self).todo_curr
                &&& *r.2 == old(self).dones
                &&& final(self).todos == *final(r.0)
                &&& final(self).todo_curr == *final(r.1)
                &&& final(self).dones == *final(r.2)
                &&& final(self).done_curr == old(self).done_curr
            },
            old(self).tab == Status::Done ==> {
                &&& *r.0 == old(self).dones
                &&& *r.1 == old(self).done_curr
                &&& *r.2 == old(self).todos
                &&& final(self).dones == *final(r.0)
                &&& final(self).done_curr == *final(r.1)
                &&& final(self).todos == *final(r.2)
                &&& final(self).todo_curr == old(self).todo_curr
            },
            final(self).tab == old(self).tab,
            final(self).quit == old(self).quit,
    {
        match self.tab {
            Status::Todo => (&mut self.todos, &mut self.todo_curr, &mut self.dones),
            Status::Done => (&mut self.dones, &mut self.done_curr, &mut self.todos),
        }
    }

    /// Handles one key: quit, move up, move down, transfer to the other
    /// list, or switch tabs; any other key, or any key after quitting,
    /// changes nothing.
    pub fn handle_key(&mut self, key: char)
        ensures
            final(self)@ == step(old(self)@, key),
            cursors_ok(old(self)@) ==> cursors_ok(final(self)@),
    {
        proof {
            if cursors_ok(self@) {
                lemma_step_keeps_cursors(self@, key);
            }
        }
        if self.quit {
            return;
        }
        if key == QUIT_KEY {
            self.quit = true;
        } else if key == UP_KEY {
            let (_list, cur, _other) = self.active_list_and_cursor();
            list_up(cur);
        } else if key == DOWN_KEY {
            let (list, cur, _other) = self.active_list_and_cursor();
            list_down(list, cur);
        } else if key == CONFIRM_KEY {
            let ghost v = self@;
            let ghost t = self.tab;
            let ghost a = match t { Status::Todo => self.todos@, Status::Done => self.dones@ };
            let ghost b = match t { Status::Todo => self.dones@, Status::Done => self.todos@ };
            let ghost c = match t { Status::Todo => self.todo_curr, Status::Done => self.done_curr };
            let (list, cur, other) = self.active_list_and_cursor();
            list_transfer(other, list, cur);
            proof {
                if c < a.len() {
                    lemma_texts_push(b, a[c as int]);
                    lemma_texts_remove(a, c as int);
                }
            }
        } else if key == TAB_KEY {
            self.tab = self.tab.toggle();
        }
    }
    /// Builds the frame for the current state: the tab header, a separator,
    /// then one line per item of the active list, in order, the item under
    /// its cursor highlighted.
    pub fn render(&self) -> (frame: Vec<Paint>)
        requires
            self.todos.len() < usize::MAX - 2,
            self.dones.len() < usize::MAX - 2,
        ensures
            frame@.len() == active_items(self@).len() + 2,
            frame@[0].text@ == header(self.tab),
            frame@[0].pair == REGULAR_PAIR,
            frame@[1].text@ == separator(),
            frame@[1].pair == REGULAR_PAIR,
            forall|i: int| 0 <= i < frame@.len() ==> #[trigger] frame@[i].row == i && frame@[i].col == 0,
            forall|i: int|
                2 <= i < frame@.len() ==> (#[trigger] frame@[i]).text@ == marker(self.tab)
                    + active_items(self@)[i - 2],
            forall|i: int|
                2 <= i < frame@.len() ==> (#[trigger] frame@[i]).pair == if i - 2 == active_cursor(
                    self@,
                ) {
                    HIGHLIGHT_PAIR
                } else {
                    REGULAR_PAIR
                },
    {
        proof {
            reveal_strlit("[TODO] DONE ");
            reveal_strlit(" TODO [DONE]");
            reveal_strlit("- [] ");
            reveal_strlit("- [x] ");
        }
        let (items, cur, head, mark) = match self.tab {
            Status::Todo => (&self.todos, self.todo_curr, "[TODO] DONE ", "- [] "),
            Status::Done => (&self.dones, self.done_curr, " TODO [DONE]", "- [x] "),
        };
        assert(texts(items@) == active_items(self@));
        assert(head@ == header(self.tab));
        assert(mark@ == marker(self.tab));
        let mut ui = Ui::default();
        ui.begin(0, 0);
        let mut frame: Vec<Paint> = Vec::new();
        frame.push(ui.label(head, REGULAR_PAIR));
        frame.push(ui.label("------------", REGULAR_PAIR));
        ui.begin_list(cur);
        let mut i: usize = 0;
        while i < items.len()
            invariant
                i <= items.len(),
                items.len() < usize::MAX - 2,
                ui.row == i + 2,
                ui.col == 0,
                ui.list_curr == Some(cur),
                texts(items@) == active_items(self@),
                cur == active_cursor(self@),
                head@ == header(self.tab),
                mark@ == marker(self.tab),
                frame@.len() == i + 2,
                frame@[0].text@ == head@,
                frame@[0].pair == REGULAR_PAIR,
                frame@[1].text@ == separator(),
                frame@[1].pair == REGULAR_PAIR,
                forall|j: int| 0 <= j < frame@.len() ==> #[trigger] frame@[j].row == j && frame@[j].col == 0,
                forall|j: int| 2 <= j < frame@.len() ==> (#[trigger] frame@[j]).text@ == mark@ + items@[j - 2]@,
                forall|j: int|
                    2 <= j < frame@.len() ==> (#[trigger] frame@[j]).pair == if j - 2 == cur {
                        HIGHLIGHT_PAIR
                    } else {
                        REGULAR_PAIR
                    },
            decreases items.len() - i,
        {
            let line = item_line(mark, &items[i]);
            let p = ui.list_element(line.as_str(), i);
            frame.push(p);
            assert(frame@[i + 2] == p);
            i += 1;
        }
        ui.end_list();
        ui.end();
        assert forall|i: int| 2 <= i < frame@.len() implies (#[trigger] frame@[i]).text@ == marker(
            self.tab,
        ) + active_items(self@)[i - 2] by {
            assert(active_items(self@)[i - 2] == items@[i - 2]@);
        }
        frame
    }
}

} // verus!
