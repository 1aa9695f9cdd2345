//! Command palette (Cmd+K) : the registered commands, the palette state
//! and the ranking that orders commands against the search text.

use vstd::prelude::*;
use vstd::utf8::encode_utf8;
use crate::text::{
    all_ws, contains_exec, contains_seq, is_blank, is_ws, lower_chars, lower_seq, occurs_at_exec,
    starts_with_seq, word_prefix_exec, word_prefix_seq, word_start_at,
};

verus! {

/// One command exposed in the palette.
#[derive(Clone, Debug)]
pub struct Command {
    /// Stable id (kebab-case).
    pub id: &'static str,
    /// Title shown in the list ("Switch to Pen", "Sign out", ...).
    pub title: String,
    /// Optional secondary description shown muted on the right.
    pub hint: Option<String>,
    /// Optional glyph displayed left of the title.
    pub icon: Option<&'static str>,
    /// Optional category label ("Tool", "Room", ...).
    pub category: Option<&'static str>,
}

impl Command {
    /// A command with no hint, no icon and no category.
    pub fn new(id: &'static str, title: &str) -> (c: Command)
        ensures
            c.id == id,
            c.title@ == title@,
            c.hint is None,
            c.icon is None,
            c.category is None,
    {
        Command { id, title: title.to_owned(), hint: None, icon: None, category: None }
    }

    /// Add a glyph displayed left of the title.
    pub fn with_icon(self, icon: &'static str) -> (c: Command)
        ensures
            c == (Command { icon: Some(icon), ..self }),
    {
        Command { icon: Some(icon), ..self }
    }

    /// Add a right-side hint (keyboard shortcut, role, ...).
    pub fn with_hint(self, hint: &str) -> (c: Command)
        ensures
            c.id == self.id,
            c.title == self.title,
            c.icon == self.icon,
            c.category == self.category,
            c.hint matches Some(h) && h@ == hint@,
    {
        Command { hint: Some(hint.to_owned()), ..self }
    }

    /// Group the command under a category header.
    pub fn with_category(self, category: &'static str) -> (c: Command)
        ensures
            c == (Command { category: Some(category), ..self }),
    {
        Command { category: Some(category), ..self }
    }
}

/// In-memory state of the palette, owned by the host app.
pub struct CommandPaletteState {
    /// `true` when the palette is currently shown.
    pub open: bool,
    /// Current text in the search field.
    pub query: String,
    /// Index of the highlighted command in the filtered list.
    pub highlight: usize,
}

impl Default for CommandPaletteState {
    fn default() -> (s: Self)
        ensures
            !s.open,
            s.query@ == Seq::<char>::empty(),
            s.highlight == 0,
    {
        CommandPaletteState { open: false, query: String::new(), highlight: 0 }
    }
}

impl CommandPaletteState {
    /// Show the palette and reset it to a blank search.
    pub fn open(&mut self)
        ensures
            final(self).open,
            final(self).query@ == Seq::<char>::empty(),
            final(self).highlight == 0,
    {
        self.open = true;
        self.query = String::new();
        self.highlight = 0;
    }

    /// Hide the palette without firing a command.
    pub fn close(&mut self)
        ensures
            !final(self).open,
            final(self).query@ == Seq::<char>::empty(),
            final(self).highlight == 0,
    {
        self.open = false;
        self.query = String::new();
        self.highlight = 0;
    }

    /// Keep the highlight inside a filtered list of `count` rows
    /// (row 0 when the list is empty).
    pub fn clamp_highlight(&mut self, count: usize)
        ensures
            final(self).open == old(self).open,
            final(self).query == old(self).query,
            final(self).highlight == (if count == 0 {
                0
            } else if old(self).highlight < count {
                old(self).highlight as int
            } else {
                count - 1
            }),
    {
        let last = if count == 0 {
            0
        } else {
            count - 1
        };
        if self.highlight > last {
            self.highlight = last;
        }
    }

    /// Arrow-down : move to the next row, wrapping to the first one.
    /// Nothing moves when the list is empty.
    pub fn highlight_next(&mut self, count: usize)
        requires
            old(self).highlight < usize::MAX,
        ensures
            final(self).open == old(self).open,
            final(self).query == old(self).query,
            final(self).highlight == (if count == 0 {
                old(self).highlight as int
            } else {
                (old(self).highlight + 1) % (count as int)
            }),
    {
        if count > 0 {
            self.highlight = (self.highlight + 1) % count;
        }
    }

    /// Arrow-up : move to the previous row, wrapping to the last one.
    /// Nothing moves when the list is empty.
    pub fn highlight_prev(&mut self, count: usize)
        ensures
            final(self).open == old(self).open,
            final(self).query == old(self).query,
            final(self).highlight == (if count == 0 {
                old(self).highlight as int
            } else if old(self).highlight == 0 {
                count - 1
            } else {
                old(self).highlight - 1
            }),
    {
        if count > 0 {
            self.highlight = if self.highlight == 0 {
                count - 1
            } else {
                self.highlight - 1
            };
        }
    }
}

/// Inside a list of `count > 0` rows, moving down then up comes back to
/// the highlighted row.
pub proof fn lemma_next_then_prev(highlight: int, count: int)
    requires
        0 <= highlight < count,
    ensures
        ({
            let down = (highlight + 1) % count;
            (if down == 0 { count - 1 } else { down - 1 }) == highlight
        }),
{
    if highlight + 1 < count {
        assert((highlight + 1) % count == highlight + 1) by (nonlinear_arith)
            requires
                0 <= highlight + 1 < count,
        ;
    } else {
        assert((highlight + 1) % count == 0) by (nonlinear_arith)
            requires
                highlight + 1 == count,
                count > 0,
        ;
    }
}

/// Number of UTF-8 bytes of a title (as `str::len` reports it), capped
/// at `i32::MAX`.
pub open spec fn capped_byte_len(title: Seq<char>) -> int {
    let n = encode_utf8(title).len() as usize;
    if n > i32::MAX {
        i32::MAX as int
    } else {
        n as int
    }
}

/// The title matches the search text : the lower-cased search text is a
/// sub-string of the lower-cased title.
pub open spec fn title_matches(title: Seq<char>, query: Seq<char>) -> bool {
    contains_seq(lower_seq(title), lower_seq(query))
}

/// Ranking score of a matching title : 100, plus 50 when the search
/// text starts a word of the title, plus 100 when it starts the title,
/// minus the byte length of the title (shorter titles win ties).
pub open spec fn title_score(title: Seq<char>, query: Seq<char>) -> int {
    let t = lower_seq(title);
    let q = lower_seq(query);
    100 + (if word_prefix_seq(t, q) {
        50int
    } else {
        0int
    }) + (if starts_with_seq(t, q) {
        100int
    } else {
        0int
    }) - capped_byte_len(title)
}

/// Word-start bonus : a search text without white space that occurs in
/// a text at its very start or right after a white-space character (the
/// start of one of its white-space separated words) sets the word-prefix
/// flag, whatever other occurrences come before ; and the flag is set
/// only for such an occurrence.
pub proof fn lemma_word_start_flag(t: Seq<char>, q: Seq<char>, i: int)
    requires
        q.len() > 0,
        forall|k: int| 0 <= k < q.len() ==> !is_ws(#[trigger] q[k]),
        0 <= i,
        i + q.len() <= t.len(),
        t.subrange(i, i + q.len()) == q,
        i == 0 || is_ws(t[i - 1]),
    ensures
        word_prefix_seq(t, q),
{
    assert(word_start_at(t, q, i));
}

/// The word-prefix flag is set only when the search text is free of white
/// space and occurs at the start of the text or right after white space.
pub proof fn lemma_word_flag_has_word_start(t: Seq<char>, q: Seq<char>)
    requires
        word_prefix_seq(t, q),
    ensures
        q.len() > 0,
        forall|k: int| 0 <= k < q.len() ==> !is_ws(#[trigger] q[k]),
        exists|i: int|
            0 <= i && i + q.len() <= t.len() && #[trigger] t.subrange(i, i + q.len()) == q && (i
                == 0 || is_ws(t[i - 1])),
{
    let i = choose|i: int| word_start_at(t, q, i);
    assert(t.subrange(i, i + q.len()) == q);
}

/// A matching title whose lower-cased text has the lower-cased search text
/// (free of white space) at the start of a word scores 150, plus 100 when
/// that is the title's start, minus its byte length.
pub proof fn lemma_word_start_score(title: Seq<char>, query: Seq<char>, i: int)
    requires
        lower_seq(query).len() > 0,
        forall|k: int| 0 <= k < query.len() ==> !is_ws(#[trigger] lower_seq(query)[k]),
        0 <= i,
        i + query.len() <= title.len(),
        lower_seq(title).subrange(i, i + query.len()) == lower_seq(query),
        i == 0 || is_ws(lower_seq(title)[i - 1]),
    ensures
        title_score(title, query) == 150 + (if starts_with_seq(lower_seq(title), lower_seq(query)) {
            100int
        } else {
            0int
        }) - capped_byte_len(title),
{
    lemma_word_start_flag(lower_seq(title), lower_seq(query), i);
}

/// A title that starts with the search text outranks a matching title
/// that does not, unless the latter is shorter by 50 bytes or more.
pub proof fn lemma_title_start_outranks(a: Seq<char>, b: Seq<char>, query: Seq<char>)
    requires
        title_matches(a, query),
        title_matches(b, query),
        starts_with_seq(lower_seq(a), lower_seq(query)),
        !starts_with_seq(lower_seq(b), lower_seq(query)),
        capped_byte_len(a) < capped_byte_len(b) + 50,
    ensures
        title_score(a, query) > title_score(b, query),
{
}

/// Among matching titles with the same word-start and title-start
/// flags, the one with fewer bytes scores higher.
pub proof fn lemma_shorter_title_wins_ties(a: Seq<char>, b: Seq<char>, query: Seq<char>)
    requires
        word_prefix_seq(lower_seq(a), lower_seq(query)) == word_prefix_seq(
            lower_seq(b),
            lower_seq(query),
        ),
        starts_with_seq(lower_seq(a), lower_seq(query)) == starts_with_seq(
            lower_seq(b),
            lower_seq(query),
        ),
        capped_byte_len(a) < capped_byte_len(b),
    ensures
        title_score(a, query) > title_score(b, query),
{
}

/// Command `a` comes before command `b` in the ranked list : higher
/// score first, original order among equal scores.
pub open spec fn ranks_before(cmds: Seq<Command>, query: Seq<char>, a: int, b: int) -> bool {
    let sa = title_score(cmds[a].title@, query);
    let sb = title_score(cmds[b].title@, query);
    sa > sb || (sa == sb && a < b)
}

/// `idx` lists, without repetition and in rank order, exactly the
/// indices of the commands whose title matches `query`.
pub open spec fn ranked_matches(cmds: Seq<Command>, query: Seq<char>, idx: Seq<usize>) -> bool {
    &&& forall|j: int| 0 <= j < idx.len() ==> #[trigger] idx[j] < cmds.len()
    &&& forall|m: int|
        0 <= m < cmds.len() ==> (title_matches(cmds[m].title@, query) <==> idx.contains(
            m as usize,
        ))
    &&& forall|j: int, k: int|
        0 <= j < k < idx.len() ==> ranks_before(cmds, query, #[trigger] idx[j] as int, #[trigger] idx[k] as int)
}

/// Rank `commands` against `query`.
///
/// A blank query (empty or white space only) keeps every command in its
/// original order. Otherwise only commands whose title contains the
/// query (ASCII case-insensitively) are kept, ordered by decreasing
/// [`title_score`], ties kept in their original order.
pub fn filter<'a>(commands: &'a [Command], query: &str) -> (out: Vec<&'a Command>)
    ensures
        all_ws(query@) ==> out@.len() == commands@.len() && forall|j: int|
            0 <= j < out@.len() ==> *out@[j] == commands@[j],
        !all_ws(query@) ==> exists|idx: Seq<usize>|
            {
                &&& ranked_matches(commands@, query@, idx)
                &&& idx.len() == out@.len()
                &&& forall|j: int| 0 <= j < out@.len() ==> *out@[j] == commands@[idx[j] as int]
            },
{
    let n = commands.len();
    if is_blank(query) {
        let mut all: Vec<&'a Command> = Vec::new();
        let mut i: usize = 0;
        while i < n
            invariant
                n == commands@.len(),
                i <= n,
                all@.len() == i,
                forall|j: int| 0 <= j < i ==> *all@[j] == commands@[j],
            decreases n - i,
        {
            all.push(&commands[i]);
            i = i + 1;
        }
        return all;
    }
    let q = lower_chars(query);
    let mut order: Vec<usize> = Vec::new();
    let mut order_scores: Vec<i32> = Vec::new();
    let mut i: usize = 0;
    while i < n
        invariant
            n == commands@.len(),
            i <= n,
            q@ == lower_seq(query@),
            order@.len() == order_scores@.len(),
            forall|j: int|
                0 <= j < order@.len() ==> {
                    &&& #[trigger] order@[j] < i
                    &&& title_matches(commands@[order@[j] as int].title@, query@)
                    &&& order_scores@[j] == title_score(commands@[order@[j] as int].title@, query@)
                },
            forall|m: int|
                0 <= m < i && title_matches(commands@[m].title@, query@) ==> order@.contains(
                    m as usize,
                ),
            forall|j: int, k: int|
                0 <= j < k < order@.len() ==> ranks_before(
                    commands@,
                    query@,
                    #[trigger] order@[j] as int,
                    #[trigger] order@[k] as int,
                ),
        decreases n - i,
    {
        let c = &commands[i];
        let t = lower_chars(c.title.as_str());
        if contains_exec(&t, &q) {
            let mut score: i32 = 100;
            if word_prefix_exec(&t, &q) {
                score = score + 50;
            }
            if occurs_at_exec(&t, &q, 0) {
                score = score + 100;
            }
            let len = c.title.as_str().len();
            let capped: i32 = if len > 2147483647usize {
                2147483647i32
            } else {
                len as i32
            };
            score = score - capped;
            proof {
                let title = commands@[i as int].title@;
                assert(c.title@ == title);
                assert(t@ == lower_seq(title));
                assert(len == encode_utf8(title).len() as usize);
                assert(capped as int == capped_byte_len(title));
            }
            assert(score == title_score(commands@[i as int].title@, query@));
            let mut p: usize = 0;
            while p < order.len() && order_scores[p] >= score
                invariant
                    p <= order@.len(),
                    order@.len() == order_scores@.len(),
                    forall|j: int| 0 <= j < p ==> order_scores@[j] >= score,
                decreases order@.len() - p,
            {
                p = p + 1;
            }
            let ghost old_order = order@;
            let ghost old_scores = order_scores@;
            order.insert(p, i);
            order_scores.insert(p, score);
            assert forall|j: int, k: int| 0 <= j < k < order@.len() implies ranks_before(
                commands@,
                query@,
                #[trigger] order@[j] as int,
                #[trigger] order@[k] as int,
            ) by {
                if k == p {
                    assert(order@[j] == old_order[j]);
                    assert(old_scores[j] >= score);
                } else if j == p {
                    assert(order@[k] == old_order[k - 1]);
                    assert(old_scores[p as int] < score);
                    if k - 1 > p {
                        assert(ranks_before(commands@, query@, old_order[p as int] as int, old_order[k - 1] as int));
                    }
                } else if j < p && k < p {
                    assert(order@[j] == old_order[j] && order@[k] == old_order[k]);
                } else if j < p {
                    assert(order@[j] == old_order[j] && order@[k] == old_order[k - 1]);
                } else {
                    assert(order@[j] == old_order[j - 1] && order@[k] == old_order[k - 1]);
                }
            }
            assert forall|m: int|
                0 <= m < i + 1 && title_matches(commands@[m].title@, query@) implies order@.contains(
                m as usize,
            ) by {
                if m == i {
                    assert(order@[p as int] == i);
                } else {
                    let w = choose|w: int| 0 <= w < old_order.len() && old_order[w] == m as usize;
                    if w < p {
                        assert(order@[w] == m as usize);
                    } else {
                        assert(order@[w + 1] == m as usize);
                    }
                }
            }
        }
        i = i + 1;
    }
    let mut out: Vec<&'a Command> = Vec::new();
    let mut j: usize = 0;
    while j < order.len()
        invariant
            n == commands@.len(),
            j <= order@.len(),
            out@.len() == j,
            forall|k: int| 0 <= k < order@.len() ==> #[trigger] order@[k] < n,
            forall|k: int| 0 <= k < j ==> *out@[k] == commands@[order@[k] as int],
        decreases order@.len() - j,
    {
        out.push(&commands[order[j]]);
        j = j + 1;
    }
    assert(ranked_matches(commands@, query@, order@));
    out
}

/// `rows` is a list `filter` may answer for `commands` and `query` : every
/// command in order for a blank query, otherwise the matching commands in
/// rank order.
pub open spec fn is_filtered<'a>(commands: Seq<Command>, query: Seq<char>, rows: Seq<&'a Command>) -> bool {
    &&& all_ws(query) ==> rows.len() == commands.len() && forall|j: int|
        0 <= j < rows.len() ==> *rows[j] == commands[j]
    &&& !all_ws(query) ==> exists|idx: Seq<usize>|
        {
            &&& ranked_matches(commands, query, idx)
            &&& idx.len() == rows.len()
            &&& forall|j: int| 0 <= j < rows.len() ==> *rows[j] == commands[idx[j] as int]
        }
}

/// What the user did to the open palette during one frame.
pub struct PaletteInput {
    /// Escape was pressed.
    pub escape: bool,
    /// The backdrop around the palette was clicked.
    pub backdrop_clicked: bool,
    /// Arrow-down was pressed.
    pub arrow_down: bool,
    /// Arrow-up was pressed.
    pub arrow_up: bool,
    /// Enter was pressed.
    pub enter: bool,
    /// The row of the shown list that was clicked, if any.
    pub clicked_row: Option<usize>,
    /// The search text once this frame's typing is applied, when it changed.
    pub edited_query: Option<String>,
}

/// The highlighted row once the frame's arrow keys are applied to a list
/// of `n` rows, starting from `highlight` kept inside the list.
pub open spec fn navigated(highlight: int, n: int, down: bool, up: bool) -> int {
    let h0 = if n == 0 {
        0
    } else if highlight < n {
        highlight
    } else {
        n - 1
    };
    let h1 = if down && n > 0 {
        (h0 + 1) % n
    } else {
        h0
    };
    if up && n > 0 {
        if h1 == 0 {
            n - 1
        } else {
            h1 - 1
        }
    } else {
        h1
    }
}

/// The row fired this frame, if any : rows are drawn in order and each
/// fires when it is the highlighted one and Enter was pressed, or when it
/// was clicked ; the last row that fires wins.
pub open spec fn fired_row(h: int, n: int, enter: bool, clicked: Option<usize>) -> Option<int> {
    let by_enter = enter && 0 <= h < n;
    let by_click = clicked matches Some(c) && c < n;
    if by_click && (!by_enter || clicked->0 > h) {
        Some(clicked->0 as int)
    } else if by_enter {
        Some(h)
    } else {
        None
    }
}

/// The palette is closed and reset.
pub open spec fn is_closed(s: CommandPaletteState) -> bool {
    !s.open && s.query@ == Seq::<char>::empty() && s.highlight == 0
}

/// The search text the list is filtered with during a frame : blank
/// once a backdrop click closed the palette.
pub open spec fn shown_query(s: CommandPaletteState, backdrop_clicked: bool) -> Seq<char> {
    if backdrop_clicked {
        Seq::<char>::empty()
    } else {
        s.query@
    }
}

/// What a frame of the open palette leaves, given the shown `rows` : the
/// fired row's id and a closed palette, or no id, the navigated
/// highlight and the edited search text.
pub open spec fn frame_outcome<'a>(
    before: CommandPaletteState,
    input: PaletteInput,
    rows: Seq<&'a Command>,
    chosen: Option<&'static str>,
    after: CommandPaletteState,
) -> bool {
    let h0 = if input.backdrop_clicked {
        0
    } else {
        before.highlight as int
    };
    let h = navigated(h0, rows.len() as int, input.arrow_down, input.arrow_up);
    match fired_row(h, rows.len() as int, input.enter, input.clicked_row) {
        Some(k) => chosen == Some(rows[k].id) && is_closed(after),
        None => {
            &&& chosen is None
            &&& after.open == !input.backdrop_clicked
            &&& after.highlight == h
            &&& after.query@ == match input.edited_query {
                Some(t) => t@,
                None => shown_query(before, input.backdrop_clicked),
            }
        },
    }
}

/// One frame of the palette : Escape closes it ; a click on the backdrop
/// closes it before the list is drawn ; the arrow keys move the
/// highlight inside the filtered list ; the fired row, if any, is
/// returned and closes the palette ; otherwise the typed text becomes the
/// search text. A closed palette ignores every input.
pub fn palette_frame<'a>(
    state: &mut CommandPaletteState,
    commands: &'a [Command],
    input: PaletteInput,
) -> (chosen: Option<&'static str>)
    ensures
        !old(state).open ==> chosen is None && *final(state) == *old(state),
        old(state).open && input.escape ==> chosen is None && is_closed(*final(state)),
        old(state).open && !input.escape ==> exists|rows: Seq<&'a Command>|
            #[trigger] is_filtered(commands@, shown_query(*old(state), input.backdrop_clicked), rows)
                && frame_outcome(
                *old(state),
                input,
                rows,
                chosen,
                *final(state),
            ),
{
    let ghost before = *state;
    let ghost inp = input;
    if !state.open {
        return None;
    }
    if input.escape {
        state.close();
        return None;
    }
    if input.backdrop_clicked {
        state.close();
    }
    let ghost q = state.query@;
    let ghost h0 = state.highlight as int;
    let rows = filter(commands, state.query.as_str());
    assert(is_filtered(commands@, q, rows@));
    let n = rows.len();
    state.clamp_highlight(n);
    if input.arrow_down {
        state.highlight_next(n);
    }
    if input.arrow_up {
        state.highlight_prev(n);
    }
    let h = state.highlight;
    assert(h == navigated(h0, n as int, input.arrow_down, input.arrow_up));
    let mut chosen: Option<&'static str> = None;
    if input.enter && h < n {
        chosen = Some(rows[h].id);
    }
    match input.clicked_row {
        Some(c) => {
            if c < n && (chosen.is_none() || c > h) {
                chosen = Some(rows[c].id);
            }
        },
        None => {},
    }
    match input.edited_query {
        Some(t) => {
            state.query = t;
        },
        None => {},
    }
    assert(chosen == match fired_row(h as int, n as int, inp.enter, inp.clicked_row) {
        Some(k) => Some(rows@[k].id),
        None => None::<&'static str>,
    });
    if chosen.is_some() {
        state.close();
    }
    assert(q == shown_query(before, inp.backdrop_clicked));
    assert(frame_outcome(before, inp, rows@, chosen, *state));
    chosen
}

} // verus!
