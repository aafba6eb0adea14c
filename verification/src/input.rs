use vstd::prelude::*;

verus! {

/// A logical key press, classified from a single raw input byte.
///
/// The byte-to-key table is deliberately the simplified single-byte mapping:
/// one raw byte is read at a time, and a bare `65`/`66` stands for the up and
/// down arrows. Real terminal emulators send multi-byte escape sequences for
/// the arrow keys; keeping the single-byte table makes every run of the
/// widgets deterministic in the byte sequence it is fed, which is what the
/// scripted filling below relies on. The Enter and Space mappings must be
/// preserved exactly: the widgets branch on them.
#[derive(Clone, Copy, Debug, PartialEq, Eq, Structural)]
pub enum Key {
    /// The up arrow key.
    Up,
    /// The down arrow key.
    Down,
    /// The enter key.
    Enter,
    /// The space key.
    Space,
    /// Any other key.
    Other,
}

/// The key that one raw input byte stands for.
pub open spec fn key_of_byte(b: u8) -> Key {
    if b == 65 {
        Key::Up
    } else if b == 66 {
        Key::Down
    } else if b == 10 {
        Key::Enter
    } else if b == 32 {
        Key::Space
    } else {
        Key::Other
    }
}

/// Classifies one raw input byte into a logical key.
pub fn classify_byte(b: u8) -> (k: Key)
    ensures
        k == key_of_byte(b),
{
    match b {
        65 => Key::Up,
        66 => Key::Down,
        10 => Key::Enter,
        32 => Key::Space,
        _ => Key::Other,
    }
}

/// One unit of operator input: a full line typed at a text prompt, or a
/// single key press inside a selection widget.
#[derive(Debug)]
pub enum Event {
    /// One line typed at a text prompt.
    Line(String),
    /// One key press inside a selection widget.
    Key(Key),
}

/// The transient state of a single-select widget: a cursor over `len`
/// options. It exists only while one field is being filled and is discarded
/// once a choice is committed.
#[derive(Clone, Copy, Debug, PartialEq, Eq, Structural)]
pub struct SelectWidget {
    /// The option the cursor is on.
    pub cursor: usize,
    /// How many options there are.
    pub len: usize,
}

/// The cursor stays inside the option list.
pub open spec fn select_wf(w: SelectWidget) -> bool {
    w.cursor < w.len
}

/// Where the cursor moves on one key: up is floored at the first option and
/// down is capped at the last one, with no wraparound; every other key leaves
/// it in place.
pub open spec fn select_next(w: SelectWidget, key: Key) -> SelectWidget {
    match key {
        Key::Up => if w.cursor > 0 {
            SelectWidget { cursor: (w.cursor - 1) as usize, len: w.len }
        } else {
            w
        },
        Key::Down => if w.cursor + 1 < w.len {
            SelectWidget { cursor: (w.cursor + 1) as usize, len: w.len }
        } else {
            w
        },
        _ => w,
    }
}

/// What one key commits: enter always commits the option under the cursor;
/// no other key commits anything.
pub open spec fn select_commit(w: SelectWidget, key: Key) -> Option<usize> {
    if key is Enter {
        Some(w.cursor)
    } else {
        None
    }
}

impl SelectWidget {
    /// A fresh widget over `len` options, with the cursor on the first one.
    pub fn new(len: usize) -> (w: Self)
        requires
            len > 0,
        ensures
            w == (SelectWidget { cursor: 0, len: len }),
            select_wf(w),
    {
        SelectWidget { cursor: 0, len }
    }

    /// Feeds one key to the widget. Returns the index of the committed
    /// option, or `None` while the widget keeps browsing. A committed index
    /// always lies inside the option list.
    pub fn step(&mut self, key: Key) -> (r: Option<usize>)
        requires
            select_wf(*old(self)),
        ensures
            select_wf(*final(self)),
            *final(self) == select_next(*old(self), key),
            r == select_commit(*old(self), key),
            r matches Some(i) ==> i < final(self).len,
    {
        match key {
            Key::Up => {
                if self.cursor > 0 {
                    self.cursor = self.cursor - 1;
                }
                None
            },
            Key::Down => {
                if self.cursor + 1 < self.len {
                    self.cursor = self.cursor + 1;
                }
                None
            },
            Key::Enter => Some(self.cursor),
            _ => None,
        }
    }
}

/// How many toggles are on.
pub open spec fn count_toggled(t: Seq<bool>) -> nat
    decreases t.len(),
{
    if t.len() == 0 {
        0
    } else {
        count_toggled(t.drop_last()) + (if t.last() {
            1nat
        } else {
            0nat
        })
    }
}

/// The indices whose toggles are on, in ascending order.
pub open spec fn toggled_indices(t: Seq<bool>) -> Seq<usize>
    decreases t.len(),
{
    if t.len() == 0 {
        Seq::empty()
    } else {
        toggled_indices(t.drop_last()) + (if t.last() {
            seq![(t.len() - 1) as usize]
        } else {
            Seq::empty()
        })
    }
}

/// There are as many toggled indices as toggles that are on; each one points
/// at a toggle that is on and lies inside the list; and they ascend strictly.
pub proof fn lemma_toggled_indices(t: Seq<bool>)
    requires
        t.len() <= usize::MAX,
    ensures
        toggled_indices(t).len() == count_toggled(t),
        forall|j: int|
            0 <= j < toggled_indices(t).len() ==> (#[trigger] toggled_indices(t)[j]) < t.len()
                && t[toggled_indices(t)[j] as int],
        forall|j: int, k: int|
            0 <= j < k < toggled_indices(t).len() ==> #[trigger] toggled_indices(t)[j]
                < #[trigger] toggled_indices(t)[k],
    decreases t.len(),
{
    if t.len() > 0 {
        let p = t.drop_last();
        lemma_toggled_indices(p);
        let ti = toggled_indices(t);
        let tp = toggled_indices(p);
        if t.last() {
            assert(ti =~= tp + seq![(t.len() - 1) as usize]);
        } else {
            assert(ti =~= tp);
        }
        assert forall|j: int| 0 <= j < ti.len() implies (#[trigger] ti[j]) < t.len() && t[ti[j] as int] by {
            if j < tp.len() {
                assert(ti[j] == tp[j]);
                assert(tp[j] < p.len());
                assert(p[tp[j] as int]);
                assert(t[tp[j] as int] == p[tp[j] as int]);
            } else {
                assert(t.last());
                assert(ti[j] == (t.len() - 1) as usize);
            }
        }
        assert forall|j: int, k: int| 0 <= j < k < ti.len() implies (#[trigger] ti[j]) < (
        #[trigger] ti[k]) by {
            if k >= tp.len() {
                assert(tp[j] < p.len());
            }
        }
    }
}

/// The transient state of a multi-select widget: a cursor, one toggle per
/// option, and the optional upper bound on how many may be on at once. It
/// exists only while one field is being filled and is discarded after the
/// toggled set is committed.
#[derive(Debug)]
pub struct MultiselectWidget {
    /// The option the cursor is on.
    pub cursor: usize,
    /// Which options are toggled on.
    pub toggles: Vec<bool>,
    /// The optional upper bound on how many toggles may be on.
    pub limit: Option<usize>,
}

/// The cursor stays inside the option list, and the number of toggles that
/// are on never exceeds the configured limit.
pub open spec fn multi_wf(w: MultiselectWidget) -> bool {
    &&& w.cursor < w.toggles.len()
    &&& (w.limit matches Some(l) ==> count_toggled(w.toggles@) <= l)
}

/// Where the cursor moves on one key, exactly as in the single-select widget.
pub open spec fn multi_next_cursor(cursor: int, len: int, key: Key) -> int {
    match key {
        Key::Up => if cursor > 0 {
            cursor - 1
        } else {
            cursor
        },
        Key::Down => if cursor + 1 < len {
            cursor + 1
        } else {
            cursor
        },
        _ => cursor,
    }
}

/// How the toggles change on one key: space turns the toggle under the cursor
/// off if it is on, and on only if it is off and the limit leaves room; a full
/// widget ignores the press. No other key changes the toggles.
pub open spec fn multi_next_toggles(
    cursor: int,
    toggles: Seq<bool>,
    limit: Option<usize>,
    key: Key,
) -> Seq<bool> {
    if key is Space {
        if toggles[cursor] {
            toggles.update(cursor, false)
        } else if limit is None || count_toggled(toggles) < limit->Some_0 {
            toggles.update(cursor, true)
        } else {
            toggles
        }
    } else {
        toggles
    }
}

/// What one key commits: enter commits the toggled set only when it is not
/// empty; an enter on an empty set is ignored and the widget keeps browsing.
pub open spec fn multi_commit(toggles: Seq<bool>, key: Key) -> Option<Seq<usize>> {
    if key is Enter && count_toggled(toggles) > 0 {
        Some(toggled_indices(toggles))
    } else {
        None
    }
}

impl MultiselectWidget {
    /// A fresh widget over `len` options, all toggles off, the cursor on the
    /// first option.
    pub fn new(len: usize, limit: Option<usize>) -> (w: Self)
        requires
            len > 0,
        ensures
            w.cursor == 0,
            w.limit == limit,
            w.toggles@ == Seq::new(len as nat, |i: int| false),
            multi_wf(w),
    {
        let mut toggles: Vec<bool> = Vec::new();
        let mut i: usize = 0;
        while i < len
            invariant
                i <= len,
                toggles@ == Seq::new(i as nat, |j: int| false),
            decreases len - i,
        {
            toggles.push(false);
            i = i + 1;
            assert(toggles@ =~= Seq::new(i as nat, |j: int| false));
        }
        let w = MultiselectWidget { cursor: 0, toggles, limit };
        proof {
            lemma_count_toggled_all_off(w.toggles@);
        }
        w
    }

    /// Feeds one key to the widget. Returns the committed indices, ascending,
    /// or `None` while the widget keeps browsing.
    pub fn step(&mut self, key: Key) -> (r: Option<Vec<usize>>)
        requires
            multi_wf(*old(self)),
        ensures
            multi_wf(*final(self)),
            final(self).limit == old(self).limit,
            final(self).toggles@.len() == old(self).toggles@.len(),
            final(self).cursor as int == multi_next_cursor(
                old(self).cursor as int,
                old(self).toggles@.len() as int,
                key,
            ),
            final(self).toggles@ == multi_next_toggles(
                old(self).cursor as int,
                old(self).toggles@,
                old(self).limit,
                key,
            ),
            (r is Some) == (multi_commit(old(self).toggles@, key) is Some),
            r matches Some(v) ==> Some(v@) == multi_commit(old(self).toggles@, key),
    {
        match key {
            Key::Up => {
                if self.cursor > 0 {
                    self.cursor = self.cursor - 1;
                }
                None
            },
            Key::Down => {
                if self.cursor + 1 < self.toggles.len() {
                    self.cursor = self.cursor + 1;
                }
                None
            },
            Key::Space => {
                if self.toggles[self.cursor] {
                    self.toggles.set(self.cursor, false);
                    proof {
                        lemma_count_toggled_update(old(self).toggles@, self.cursor as int, false);
                    }
                } else {
                    let room = match self.limit {
                        Option::None => true,
                        Option::Some(l) => count_true(&self.toggles) < l,
                    };
                    if room {
                        self.toggles.set(self.cursor, true);
                        proof {
                            lemma_count_toggled_update(
                                old(self).toggles@,
                                self.cursor as int,
                                true,
                            );
                        }
                    }
                }
                None
            },
            Key::Enter => {
                let chosen = toggled_index_list(&self.toggles);
                proof {
                    lemma_toggled_indices(self.toggles@);
                }
                if chosen.len() > 0 {
                    Some(chosen)
                } else {
                    None
                }
            },
            _ => None,
        }
    }
}

/// The option labels of a list of value-and-label pairs.
pub open spec fn labels_of(options: Seq<(crate::value::Value, String)>) -> Seq<Seq<char>> {
    Seq::new(options.len(), |i: int| options[i].1@)
}

/// The lines a single-select widget shows from option `i` on: each label on
/// its own line, the one under the cursor marked.
pub open spec fn select_render_lines(labels: Seq<Seq<char>>, cursor: int, i: int) -> Seq<char>
    decreases labels.len() - i,
{
    if 0 <= i < labels.len() {
        (if i == cursor {
            "> "@
        } else {
            "  "@
        }) + labels[i] + "\n"@ + select_render_lines(labels, cursor, i + 1)
    } else {
        Seq::empty()
    }
}

/// The full screen a single-select widget shows: the prompt, a colon, and
/// one line per option.
pub open spec fn select_render(prompt: Seq<char>, labels: Seq<Seq<char>>, cursor: int) -> Seq<
    char,
> {
    prompt + ":\n"@ + select_render_lines(labels, cursor, 0)
}

/// Renders one frame of a single-select widget over the options' labels.
pub fn render_select(prompt: &str, options: &Vec<(crate::value::Value, String)>, cursor: usize)
    -> (r: String)
    ensures
        r@ == select_render(prompt@, labels_of(options@), cursor as int),
{
    let ghost labels = labels_of(options@);
    let mut r = String::from_str(prompt);
    r.append(":\n");
    let mut i: usize = 0;
    while i < options.len()
        invariant
            i <= options@.len(),
            labels == labels_of(options@),
            select_render(prompt@, labels, cursor as int) == r@ + select_render_lines(
                labels,
                cursor as int,
                i as int,
            ),
        decreases options@.len() - i,
    {
        if i == cursor {
            r.append("> ");
        } else {
            r.append("  ");
        }
        r.append(options[i].1.as_str());
        r.append("\n");
        i = i + 1;
    }
    proof {
        assert(r@ + select_render_lines(labels, cursor as int, i as int) =~= r@);
    }
    r
}

/// The lines a multi-select widget shows from option `i` on: each label on
/// its own line with its toggle marker, the one under the cursor marked.
pub open spec fn multi_render_lines(
    labels: Seq<Seq<char>>,
    toggles: Seq<bool>,
    cursor: int,
    i: int,
) -> Seq<char>
    decreases labels.len() - i,
{
    if 0 <= i < labels.len() {
        (if i == cursor {
            "> "@
        } else {
            "  "@
        }) + "["@ + (if 0 <= i < toggles.len() && toggles[i] {
            "*"@
        } else {
            " "@
        }) + "] "@ + labels[i] + "\n"@ + multi_render_lines(labels, toggles, cursor, i + 1)
    } else {
        Seq::empty()
    }
}

/// The full screen a multi-select widget shows: the prompt, a colon, the
/// standing usage hint, and one line per option with its toggle marker.
pub open spec fn multi_render(
    prompt: Seq<char>,
    labels: Seq<Seq<char>>,
    toggles: Seq<bool>,
    cursor: int,
) -> Seq<char> {
    prompt + ":\n"@ + "Use Space to select/deselect, Enter to confirm\n"@ + multi_render_lines(
        labels,
        toggles,
        cursor,
        0,
    )
}

/// Renders one frame of a multi-select widget over the options' labels and
/// the widget's toggles.
pub fn render_multiselect(
    prompt: &str,
    options: &Vec<(crate::value::Value, String)>,
    toggles: &Vec<bool>,
    cursor: usize,
) -> (r: String)
    ensures
        r@ == multi_render(prompt@, labels_of(options@), toggles@, cursor as int),
{
    let ghost labels = labels_of(options@);
    let mut r = String::from_str(prompt);
    r.append(":\n");
    r.append("Use Space to select/deselect, Enter to confirm\n");
    let mut i: usize = 0;
    while i < options.len()
        invariant
            i <= options@.len(),
            labels == labels_of(options@),
            multi_render(prompt@, labels, toggles@, cursor as int) == r@ + multi_render_lines(
                labels,
                toggles@,
                cursor as int,
                i as int,
            ),
        decreases options@.len() - i,
    {
        if i == cursor {
            r.append("> ");
        } else {
            r.append("  ");
        }
        r.append("[");
        if i < toggles.len() && toggles[i] {
            r.append("*");
        } else {
            r.append(" ");
        }
        r.append("] ");
        r.append(options[i].1.as_str());
        r.append("\n");
        i = i + 1;
    }
    proof {
        assert(r@ + multi_render_lines(labels, toggles@, cursor as int, i as int) =~= r@);
    }
    r
}

/// Enter on a multi-select widget with no toggled option commits nothing and
/// changes nothing: the widget keeps browsing.
pub proof fn lemma_enter_on_empty_keeps_browsing(
    cursor: int,
    toggles: Seq<bool>,
    limit: Option<usize>,
)
    requires
        count_toggled(toggles) == 0,
    ensures
        multi_commit(toggles, Key::Enter) is None,
        multi_next_cursor(cursor, toggles.len() as int, Key::Enter) == cursor,
        multi_next_toggles(cursor, toggles, limit, Key::Enter) == toggles,
{
}

/// Toggling one entry off never raises the count, and toggling one on raises
/// it by exactly one.
proof fn lemma_count_toggled_update(t: Seq<bool>, i: int, b: bool)
    requires
        0 <= i < t.len(),
        t[i] != b,
    ensures
        b ==> count_toggled(t.update(i, b)) == count_toggled(t) + 1,
        !b ==> count_toggled(t.update(i, b)) + 1 == count_toggled(t),
    decreases t.len(),
{
    let u = t.update(i, b);
    if i == t.len() - 1 {
        assert(u.drop_last() =~= t.drop_last());
    } else {
        assert(u.drop_last() =~= t.drop_last().update(i, b));
        lemma_count_toggled_update(t.drop_last(), i, b);
    }
}

/// With every toggle off the count is zero.
proof fn lemma_count_toggled_all_off(t: Seq<bool>)
    requires
        forall|i: int| 0 <= i < t.len() ==> !t[i],
    ensures
        count_toggled(t) == 0,
    decreases t.len(),
{
    if t.len() > 0 {
        lemma_count_toggled_all_off(t.drop_last());
    }
}

/// Counts the toggles that are on.
fn count_true(v: &Vec<bool>) -> (n: usize)
    ensures
        n == count_toggled(v@),
{
    let mut n: usize = 0;
    let mut i: usize = 0;
    while i < v.len()
        invariant
            i <= v.len(),
            n <= i,
            n == count_toggled(v@.subrange(0, i as int)),
        decreases v.len() - i,
    {
        proof {
            assert(v@.subrange(0, i + 1).drop_last() =~= v@.subrange(0, i as int));
            assert(v@.subrange(0, i + 1).last() == v@[i as int]);
        }
        if v[i] {
            n = n + 1;
        }
        i = i + 1;
    }
    proof {
        assert(v@.subrange(0, v@.len() as int) =~= v@);
    }
    n
}

/// Collects the indices whose toggles are on, in ascending order.
fn toggled_index_list(v: &Vec<bool>) -> (r: Vec<usize>)
    ensures
        r@ == toggled_indices(v@),
{
    let mut r: Vec<usize> = Vec::new();
    let mut i: usize = 0;
    while i < v.len()
        invariant
            i <= v.len(),
            r@ == toggled_indices(v@.subrange(0, i as int)),
        decreases v.len() - i,
    {
        proof {
            assert(v@.subrange(0, i + 1).drop_last() =~= v@.subrange(0, i as int));
            assert(v@.subrange(0, i + 1).last() == v@[i as int]);
        }
        if v[i] {
            r.push(i);
        }
        i = i + 1;
    }
    proof {
        assert(v@.subrange(0, v@.len() as int) =~= v@);
    }
    r
}

} // verus!
