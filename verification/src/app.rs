use vstd::prelude::*;

use crate::model::stats::{rolled_history, ModelStats, OllamaModel, TOKEN_HISTORY_CAP};
use crate::ui::components::ollama_stats::OllamaStatsUI;

verus! {

/// Application state.
#[derive(Debug, Clone)]
pub struct App {
    /// List of available models
    pub models: Vec<OllamaModel>,
    /// Selected model index
    pub selected_model: usize,
    /// Model stats, looked up by model name
    pub stats: Vec<ModelStats>,
    /// UI components
    pub stats_ui: OllamaStatsUI,
    /// Last error message
    pub error: Option<String>,
    /// Loading state
    pub loading: bool,
}

/// No entry before index `i` carries the name `name`.
pub open spec fn unnamed_before(stats: Seq<ModelStats>, name: Seq<char>, i: int) -> bool {
    forall|j: int| 0 <= j < i ==> (#[trigger] stats[j]).name@ != name
}

/// Index `i` holds the first entry named `name`.
pub open spec fn first_named(stats: Seq<ModelStats>, name: Seq<char>, i: int) -> bool {
    &&& 0 <= i < stats.len()
    &&& stats[i].name@ == name
    &&& unnamed_before(stats, name, i)
}

/// `entry` is `fresh` merged over `prev`: the fresh figures, one more
/// refresh, and the previous history rolled forward by the fresh token count.
pub open spec fn refreshed_entry(prev: ModelStats, fresh: ModelStats, entry: ModelStats) -> bool {
    &&& entry.name == fresh.name
    &&& entry.usage == fresh.usage
    &&& entry.response_time_ns == fresh.response_time_ns
    &&& entry.current_token_count == fresh.current_token_count
    &&& entry.completion_count == prev.completion_count + 1
    &&& entry.token_history@ == rolled_history(prev.token_history@, fresh.current_token_count)
}

/// `entry` is `fresh` with its own token count appended to its history.
pub open spec fn first_entry(fresh: ModelStats, entry: ModelStats) -> bool {
    &&& entry.name == fresh.name
    &&& entry.usage == fresh.usage
    &&& entry.response_time_ns == fresh.response_time_ns
    &&& entry.current_token_count == fresh.current_token_count
    &&& entry.completion_count == fresh.completion_count
    &&& entry.token_history@ == fresh.token_history@.push(fresh.current_token_count)
}

/// `after` is `before` with `fresh` merged into entry `i`, the first entry
/// of the same name, all other entries kept.
pub open spec fn merged_at(before: Seq<ModelStats>, fresh: ModelStats, after: Seq<ModelStats>, i: int) -> bool {
    &&& first_named(before, fresh.name@, i)
    &&& after.len() == before.len()
    &&& forall|j: int| 0 <= j < before.len() && j != i ==> after[j] == before[j]
    &&& refreshed_entry(before[i], fresh, after[i])
}

/// `after` is `before` with `fresh` appended as a new entry, no entry of
/// `before` having its name.
pub open spec fn appended_new(before: Seq<ModelStats>, fresh: ModelStats, after: Seq<ModelStats>) -> bool {
    &&& unnamed_before(before, fresh.name@, before.len() as int)
    &&& after.len() == before.len() + 1
    &&& forall|j: int| 0 <= j < before.len() ==> after[j] == before[j]
    &&& first_entry(fresh, after[before.len() as int])
}

/// `after` is `before` with `fresh` merged in: into the first entry of the
/// same name, or appended as a new entry when there is none.
pub open spec fn merged_stats(before: Seq<ModelStats>, fresh: ModelStats, after: Seq<ModelStats>) -> bool {
    ||| exists|i: int| #[trigger] merged_at(before, fresh, after, i)
    ||| appended_new(before, fresh, after)
}

/// A key press, as far as the application distinguishes keys.
#[derive(Debug, Clone, Copy, PartialEq, Eq, Structural)]
pub enum Key {
    Char(char),
    Up,
    Down,
    Other,
}

/// What the header says of the application's state.
#[derive(Debug, Clone, Copy, PartialEq, Eq, Structural)]
pub enum HeaderStatus {
    Loading,
    Error,
    Ready,
}

impl HeaderStatus {
    /// The text shown after the title.
    pub fn label(&self) -> (res: &'static str)
        ensures
            res@ == match self {
                HeaderStatus::Loading => " (Loading...)"@,
                HeaderStatus::Error => " (Error)"@,
                HeaderStatus::Ready => " (Ready)"@,
            },
    {
        match self {
            HeaderStatus::Loading => " (Loading...)",
            HeaderStatus::Error => " (Error)",
            HeaderStatus::Ready => " (Ready)",
        }
    }
}

/// The key quits the application.
pub open spec fn is_quit_key(key: Key) -> bool {
    key == Key::Char('q') || key == Key::Char('Q')
}

/// The key selects the previous model.
pub open spec fn is_up_key(key: Key) -> bool {
    key == Key::Up || key == Key::Char('k')
}

/// The key selects the next model.
pub open spec fn is_down_key(key: Key) -> bool {
    key == Key::Down || key == Key::Char('j')
}

/// Selection after moving up among `len` models: one back, stopping at the first.
pub open spec fn previous_index(selected: usize, len: nat) -> usize {
    if len == 0 {
        selected
    } else if selected == 0 {
        0
    } else {
        (selected - 1) as usize
    }
}

/// Selection after moving down among `len` models: one on, wrapping to the first.
pub open spec fn next_index(selected: usize, len: nat) -> usize {
    if len == 0 {
        selected
    } else {
        ((selected + 1) % (len as int)) as usize
    }
}

/// Selection after handling `key`.
pub open spec fn selection_after_key(key: Key, selected: usize, len: nat) -> usize {
    if is_quit_key(key) {
        selected
    } else if is_up_key(key) {
        previous_index(selected, len)
    } else if is_down_key(key) {
        next_index(selected, len)
    } else {
        selected
    }
}

/// Message shown when there is nothing to list and no error to report.
pub open spec fn no_models_message() -> Seq<char> {
    "No Ollama models found. Make sure Ollama is running."@
}

/// A text made of `prefix` followed by `detail`.
fn prefixed(prefix: &str, detail: &str) -> (res: String)
    ensures
        res@ == prefix@ + detail@,
{
    let mut text = String::from_str(prefix);
    text.append(detail);
    text
}

impl App {
    pub fn new() -> (res: Self)
        ensures
            res.models@.len() == 0,
            res.selected_model == 0,
            res.stats@.len() == 0,
            res.error is None,
            !res.loading,
    {
        App {
            models: Vec::new(),
            selected_model: 0,
            stats: Vec::new(),
            stats_ui: OllamaStatsUI::new(),
            error: None,
            loading: false,
        }
    }

    /// Enter the loading state before the models are fetched.
    pub fn begin_loading(&mut self)
        ensures
            final(self).loading,
            final(self).error is None,
            final(self).models == old(self).models,
            final(self).selected_model == old(self).selected_model,
            final(self).stats == old(self).stats,
    {
        self.loading = true;
        self.error = None;
    }

    /// Take the fetched model list and leave the loading state.
    pub fn models_loaded(&mut self, models: Vec<OllamaModel>)
        ensures
            final(self).models == models,
            !final(self).loading,
            final(self).error == old(self).error,
            final(self).selected_model == old(self).selected_model,
            final(self).stats == old(self).stats,
    {
        self.models = models;
        self.loading = false;
    }

    /// Record that the model list could not be fetched, and leave the loading state.
    pub fn models_failed(&mut self, detail: &str)
        ensures
            final(self).error matches Some(e) && e@ == "Failed to fetch models: "@ + detail@,
            !final(self).loading,
            final(self).models == old(self).models,
            final(self).selected_model == old(self).selected_model,
            final(self).stats == old(self).stats,
    {
        self.error = Some(prefixed("Failed to fetch models: ", detail));
        self.loading = false;
    }

    /// Store the first stats fetched for a model, with its token count as history.
    pub fn add_initial_stats(&mut self, stats: ModelStats)
        ensures
            final(self).stats@.len() == old(self).stats@.len() + 1,
            final(self).stats@.drop_last() == old(self).stats@,
            first_entry(stats, final(self).stats@.last()),
            final(self).stats@.last().name@ == stats.name@,
            final(self).stats@.last().usage == stats.usage,
            final(self).stats@.last().response_time_ns == stats.response_time_ns,
            final(self).stats@.last().completion_count == stats.completion_count,
            final(self).stats@.last().current_token_count == stats.current_token_count,
            final(self).stats@.last().token_history@ == stats.token_history@.push(stats.current_token_count),
            final(self).models == old(self).models,
            final(self).selected_model == old(self).selected_model,
            final(self).error == old(self).error,
            final(self).loading == old(self).loading,
    {
        let mut fresh = stats;
        let count = fresh.current_token_count;
        fresh.token_history.push(count);
        self.stats.push(fresh);
    }

    /// Record that a periodic refresh failed.
    pub fn update_failed(&mut self, detail: &str)
        ensures
            final(self).error matches Some(e) && e@ == "Failed to update stats: "@ + detail@,
            final(self).models == old(self).models,
            final(self).selected_model == old(self).selected_model,
            final(self).stats == old(self).stats,
            final(self).loading == old(self).loading,
    {
        self.error = Some(prefixed("Failed to update stats: ", detail));
    }

    /// Record that no HTTP client could be set up for the periodic refresh.
    pub fn client_init_failed(&mut self, detail: &str)
        ensures
            final(self).error matches Some(e) && e@ == "Client init failed: "@ + detail@,
            final(self).models == old(self).models,
            final(self).selected_model == old(self).selected_model,
            final(self).stats == old(self).stats,
            final(self).loading == old(self).loading,
    {
        self.error = Some(prefixed("Client init failed: ", detail));
    }

    /// Position of the first stats entry named `name`, if any.
    fn stats_position(&self, name: &String) -> (res: Option<usize>)
        ensures
            match res {
                Some(i) => first_named(self.stats@, name@, i as int),
                None => unnamed_before(self.stats@, name@, self.stats@.len() as int),
            },
    {
        let n = self.stats.len();
        let mut i: usize = 0;
        while i < n
            invariant
                n == self.stats@.len(),
                i <= n,
                unnamed_before(self.stats@, name@, i as int),
            decreases n - i,
        {
            if self.stats[i].name == *name {
                return Some(i);
            }
            i = i + 1;
        }
        None
    }

    /// Merge freshly-fetched stats into the stored list, preserving history.
    pub fn apply_stats(&mut self, new_stats: ModelStats)
        requires
            forall|i: int|
                #[trigger] first_named(old(self).stats@, new_stats.name@, i)
                    ==> old(self).stats@[i].completion_count < u64::MAX,
        ensures
            merged_stats(old(self).stats@, new_stats, final(self).stats@),
            final(self).error is None,
            final(self).models == old(self).models,
            final(self).selected_model == old(self).selected_model,
            final(self).loading == old(self).loading,
            final(self).stats_ui == old(self).stats_ui,
    {
        let ghost before = self.stats@;
        let pos = self.stats_position(&new_stats.name);
        let mut fresh = new_stats;
        match pos {
            Some(i) => {
                assert(first_named(before, fresh.name@, i as int));
                fresh.completion_count = self.stats[i].completion_count + 1;
                let mut history = self.stats[i].token_history.clone();
                assert(history@ =~= before[i as int].token_history@);
                history.push(fresh.current_token_count);
                if history.len() > TOKEN_HISTORY_CAP {
                    history.remove(0);
                }
                fresh.token_history = history;
                self.stats.set(i, fresh);
                assert(merged_at(before, new_stats, self.stats@, i as int));
            },
            None => {
                let count = fresh.current_token_count;
                fresh.token_history.push(count);
                self.stats.push(fresh);
            },
        }
        self.error = None;
    }

    /// The stats stored for the model named `name`: the first entry of that name.
    pub fn find_stats(&self, name: &String) -> (res: Option<&ModelStats>)
        ensures
            match res {
                Some(s) => exists|i: int| #[trigger] first_named(self.stats@, name@, i) && *s == self.stats@[i],
                None => unnamed_before(self.stats@, name@, self.stats@.len() as int),
            },
    {
        match self.stats_position(name) {
            Some(i) => Some(&self.stats[i]),
            None => None,
        }
    }

    /// Return the name of the currently selected model (if any).
    pub fn selected_model_name(&self) -> (res: Option<&str>)
        ensures
            res is Some <==> self.selected_model < self.models@.len(),
            res matches Some(n) ==> n@ == self.models@[self.selected_model as int].name@,
    {
        if self.selected_model < self.models.len() {
            Some(self.models[self.selected_model].name.as_str())
        } else {
            None
        }
    }

    /// Handle a key press; returns true if the app should quit.
    pub fn handle_key(&mut self, key: Key) -> (quit: bool)
        requires
            is_down_key(key) && old(self).models@.len() > 0 ==> old(self).selected_model < usize::MAX,
        ensures
            quit == is_quit_key(key),
            final(self).selected_model
                == selection_after_key(key, old(self).selected_model, old(self).models@.len()),
            final(self).models == old(self).models,
            final(self).stats == old(self).stats,
            final(self).error == old(self).error,
            final(self).loading == old(self).loading,
    {
        if key == Key::Char('q') || key == Key::Char('Q') {
            return true;
        }
        if key == Key::Up || key == Key::Char('k') {
            self.previous_model();
        } else if key == Key::Down || key == Key::Char('j') {
            self.next_model();
        }
        false
    }

    fn previous_model(&mut self)
        ensures
            final(self).selected_model
                == previous_index(old(self).selected_model, old(self).models@.len()),
            final(self).models == old(self).models,
            final(self).stats == old(self).stats,
            final(self).error == old(self).error,
            final(self).loading == old(self).loading,
    {
        if self.models.len() > 0 {
            self.selected_model = self.selected_model.saturating_sub(1);
        }
    }

    fn next_model(&mut self)
        requires
            old(self).models@.len() > 0 ==> old(self).selected_model < usize::MAX,
        ensures
            final(self).selected_model == next_index(old(self).selected_model, old(self).models@.len()),
            final(self).models == old(self).models,
            final(self).stats == old(self).stats,
            final(self).error == old(self).error,
            final(self).loading == old(self).loading,
    {
        if self.models.len() > 0 {
            self.selected_model = (self.selected_model + 1) % self.models.len();
        }
    }

    /// The state that the header reports.
    pub fn header_status(&self) -> (res: HeaderStatus)
        ensures
            res == (if self.loading {
                HeaderStatus::Loading
            } else if self.error is Some {
                HeaderStatus::Error
            } else {
                HeaderStatus::Ready
            }),
    {
        if self.loading {
            HeaderStatus::Loading
        } else if self.error.is_some() {
            HeaderStatus::Error
        } else {
            HeaderStatus::Ready
        }
    }

    /// The text shown when there are no models: the last error, if any.
    pub fn empty_state_message(&self) -> (res: &str)
        ensures
            res@ == match self.error {
                Some(e) => e@,
                None => no_models_message(),
            },
    {
        match &self.error {
            Some(e) => e.as_str(),
            None => "No Ollama models found. Make sure Ollama is running.",
        }
    }
}

/// No two entries carry the same model name.
pub open spec fn names_distinct(stats: Seq<ModelStats>) -> bool {
    forall|i: int, j: int|
        0 <= i < stats.len() && 0 <= j < stats.len() && i != j ==> (#[trigger] stats[i]).name@
            != (#[trigger] stats[j]).name@
}

/// Selection after moving down `steps` times among `len` models.
pub open spec fn next_repeated(selected: usize, len: nat, steps: nat) -> usize
    decreases steps,
{
    if steps == 0 {
        selected
    } else {
        next_index(next_repeated(selected, len, (steps - 1) as nat), len)
    }
}

/// Some entry of `stats` carries the name `name`.
pub open spec fn has_name(stats: Seq<ModelStats>, name: Seq<char>) -> bool {
    exists|j: int| 0 <= j < stats.len() && (#[trigger] stats[j]).name@ == name
}

/// The token counts that a run of fresh stats brings, in order.
pub open spec fn counts_of(fresh: Seq<ModelStats>) -> Seq<u64> {
    fresh.map_values(|s: ModelStats| s.current_token_count)
}

/// The last `TOKEN_HISTORY_CAP` (or fewer) of the first `k` counts, oldest first.
pub open spec fn recent_counts(counts: Seq<u64>, k: int) -> Seq<u64> {
    counts.subrange(if k > TOKEN_HISTORY_CAP { k - TOKEN_HISTORY_CAP } else { 0 }, k)
}

/// Which of the two ways a merge went: into entry `i`, or appended.
proof fn lemma_merge_position(before: Seq<ModelStats>, fresh: ModelStats, after: Seq<ModelStats>) -> (pos: Option<int>)
    requires
        merged_stats(before, fresh, after),
    ensures
        match pos {
            Some(i) => merged_at(before, fresh, after, i),
            None => appended_new(before, fresh, after),
        },
{
    if exists|i: int| #[trigger] merged_at(before, fresh, after, i) {
        Some(choose|i: int| #[trigger] merged_at(before, fresh, after, i))
    } else {
        None
    }
}

/// No two indices are both the first entry of a name.
proof fn lemma_first_named_unique(stats: Seq<ModelStats>, name: Seq<char>, i: int, k: int)
    requires
        first_named(stats, name, i),
        first_named(stats, name, k),
    ensures
        i == k,
{
    if i < k {
        assert(stats[i].name@ != name);
    }
    if k < i {
        assert(stats[k].name@ != name);
    }
}

/// Merging fresh stats never lets a token history grow past
/// `TOKEN_HISTORY_CAP` entries, provided that stats for a model not seen
/// before bring a shorter history.
pub proof fn lemma_merge_keeps_history_capped(
    before: Seq<ModelStats>,
    fresh: ModelStats,
    after: Seq<ModelStats>,
)
    requires
        merged_stats(before, fresh, after),
        forall|j: int| 0 <= j < before.len() ==> (#[trigger] before[j]).token_history@.len() <= TOKEN_HISTORY_CAP,
        unnamed_before(before, fresh.name@, before.len() as int) ==> fresh.token_history@.len()
            < TOKEN_HISTORY_CAP,
    ensures
        forall|j: int| 0 <= j < after.len() ==> (#[trigger] after[j]).token_history@.len() <= TOKEN_HISTORY_CAP,
{
    let pos = lemma_merge_position(before, fresh, after);
    assert forall|j: int| 0 <= j < after.len() implies (#[trigger] after[j]).token_history@.len()
        <= TOKEN_HISTORY_CAP by {
        match pos {
            Some(i) => {
                if j != i {
                    assert(after[j] == before[j]);
                }
            },
            None => {
                if j < before.len() {
                    assert(after[j] == before[j]);
                }
            },
        }
    }
}

/// After a merge, the first entry of the fresh stats' name holds the fresh
/// token count as its current count and as the newest entry of its history.
pub proof fn lemma_merge_puts_newest_last(before: Seq<ModelStats>, fresh: ModelStats, after: Seq<ModelStats>)
    requires
        merged_stats(before, fresh, after),
    ensures
        exists|i: int|
            {
                &&& #[trigger] first_named(after, fresh.name@, i)
                &&& after[i].current_token_count == fresh.current_token_count
                &&& after[i].token_history@.len() > 0
                &&& after[i].token_history@.last() == fresh.current_token_count
            },
{
    let i = match lemma_merge_position(before, fresh, after) {
        Some(i) => i,
        None => before.len() as int,
    };
    assert forall|j: int| 0 <= j < i implies (#[trigger] after[j]).name@ != fresh.name@ by {
        assert(after[j] == before[j]);
    }
    assert(first_named(after, fresh.name@, i));
}

/// Merging keeps the stats keyed by model: if no name occurred twice before,
/// none occurs twice after.
pub proof fn lemma_merge_keeps_names_distinct(before: Seq<ModelStats>, fresh: ModelStats, after: Seq<ModelStats>)
    requires
        merged_stats(before, fresh, after),
        names_distinct(before),
    ensures
        names_distinct(after),
{
    let pos = lemma_merge_position(before, fresh, after);
    let n = before.len() as int;
    assert forall|a: int, b: int|
        0 <= a < after.len() && 0 <= b < after.len() && a != b implies (#[trigger] after[a]).name@
        != (#[trigger] after[b]).name@ by {
        match pos {
            Some(i) => {
                assert(after[a].name@ == before[a].name@);
                assert(after[b].name@ == before[b].name@);
                assert(before[a].name@ != before[b].name@);
            },
            None => {
                if a < n {
                    assert(after[a] == before[a]);
                }
                if b < n {
                    assert(after[b] == before[b]);
                }
                if a < n && b < n {
                    assert(before[a].name@ != before[b].name@);
                }
            },
        }
    }
}

/// After a merge, the names present are exactly those present before, and
/// the fresh stats' name.
pub proof fn lemma_merge_names(before: Seq<ModelStats>, fresh: ModelStats, after: Seq<ModelStats>)
    requires
        merged_stats(before, fresh, after),
    ensures
        forall|name: Seq<char>|
            #[trigger] has_name(after, name) <==> (has_name(before, name) || name == fresh.name@),
{
    let pos = lemma_merge_position(before, fresh, after);
    let n = before.len() as int;
    assert forall|name: Seq<char>|
        #[trigger] has_name(after, name) <==> (has_name(before, name) || name == fresh.name@) by {
        match pos {
            Some(i) => {
                assert(after[i].name@ == before[i].name@);
                if has_name(after, name) {
                    let j = choose|j: int| 0 <= j < after.len() && (#[trigger] after[j]).name@ == name;
                    assert(before[j].name@ == name);
                }
                if has_name(before, name) {
                    let j = choose|j: int| 0 <= j < before.len() && (#[trigger] before[j]).name@ == name;
                    assert(after[j].name@ == name);
                }
                if name == fresh.name@ {
                    assert(after[i].name@ == name);
                }
            },
            None => {
                if has_name(after, name) {
                    let j = choose|j: int| 0 <= j < after.len() && (#[trigger] after[j]).name@ == name;
                    if j < n {
                        assert(after[j] == before[j]);
                        assert(before[j].name@ == name);
                    }
                }
                if has_name(before, name) {
                    let j = choose|j: int| 0 <= j < before.len() && (#[trigger] before[j]).name@ == name;
                    assert(after[j] == before[j]);
                    assert(after[j].name@ == name);
                }
                if name == fresh.name@ {
                    assert(after[n].name@ == name);
                }
            },
        }
    }
}

/// Refreshing a model that had no stats `k` times in a row, each time with
/// stats that count one refresh and bring no history, leaves its entry with
/// `k` refreshes and the last `TOKEN_HISTORY_CAP` (or fewer) token counts,
/// oldest first.
pub proof fn lemma_repeated_refreshes(states: Seq<Seq<ModelStats>>, fresh: Seq<ModelStats>, name: Seq<char>)
    requires
        fresh.len() >= 1,
        states.len() == fresh.len() + 1,
        forall|j: int| 0 <= j < fresh.len() ==> merged_stats(states[j], #[trigger] fresh[j], states[j + 1]),
        unnamed_before(states[0], name, states[0].len() as int),
        forall|j: int|
            0 <= j < fresh.len() ==> {
                &&& (#[trigger] fresh[j]).name@ == name
                &&& fresh[j].completion_count == 1
                &&& fresh[j].token_history@.len() == 0
            },
    ensures
        exists|p: int|
            {
                &&& #[trigger] first_named(states[fresh.len() as int], name, p)
                &&& states[fresh.len() as int][p].completion_count == fresh.len()
                &&& states[fresh.len() as int][p].token_history@ == recent_counts(
                    counts_of(fresh),
                    fresh.len() as int,
                )
            },
{
    let p = lemma_refreshes_so_far(states, fresh, name, fresh.len() as int);
    assert(first_named(states[fresh.len() as int], name, p));
}

/// The first `m` refreshes of `lemma_repeated_refreshes`, by induction on `m`.
proof fn lemma_refreshes_so_far(states: Seq<Seq<ModelStats>>, fresh: Seq<ModelStats>, name: Seq<char>, m: int) -> (p: int)
    requires
        1 <= m <= fresh.len(),
        states.len() == fresh.len() + 1,
        forall|j: int| 0 <= j < fresh.len() ==> merged_stats(states[j], #[trigger] fresh[j], states[j + 1]),
        unnamed_before(states[0], name, states[0].len() as int),
        forall|j: int|
            0 <= j < fresh.len() ==> {
                &&& (#[trigger] fresh[j]).name@ == name
                &&& fresh[j].completion_count == 1
                &&& fresh[j].token_history@.len() == 0
            },
    ensures
        first_named(states[m], name, p),
        states[m][p].completion_count == m,
        states[m][p].token_history@ == recent_counts(counts_of(fresh), m),
    decreases m,
{
    let counts = counts_of(fresh);
    if m == 1 {
        let before = states[0];
        let after = states[1];
        let f = fresh[0];
        assert(merged_stats(before, f, after));
        match lemma_merge_position(before, f, after) {
            Some(i) => {
                assert(before[i].name@ != name);
                assert(false);
                0
            },
            None => {
                let n = before.len() as int;
                assert forall|j: int| 0 <= j < n implies (#[trigger] after[j]).name@ != name by {
                    assert(after[j] == before[j]);
                }
                assert(counts[0] == f.current_token_count);
                assert(after[n].token_history@ =~= recent_counts(counts, 1));
                n
            },
        }
    } else {
        let k = m - 1;
        let q = lemma_refreshes_so_far(states, fresh, name, k);
        let before = states[k];
        let after = states[m];
        let f = fresh[k];
        assert(merged_stats(before, f, after));
        match lemma_merge_position(before, f, after) {
            Some(i) => {
                lemma_first_named_unique(before, name, i, q);
                assert forall|j: int| 0 <= j < i implies (#[trigger] after[j]).name@ != name by {
                    assert(after[j] == before[j]);
                }
                assert(counts[k] == f.current_token_count);
                let prev = recent_counts(counts, k);
                assert(prev.push(counts[k]) =~= counts.subrange(
                    if k > TOKEN_HISTORY_CAP { k - TOKEN_HISTORY_CAP } else { 0 },
                    m,
                ));
                assert(after[i].token_history@ =~= recent_counts(counts, m));
                i
            },
            None => {
                assert(before[q].name@ == name);
                assert(false);
                0
            },
        }
    }
}

/// A merge stores the fresh figures: the first entry of the fresh stats'
/// name carries their usage, response time and current token count.
pub proof fn lemma_merge_takes_fresh_figures(before: Seq<ModelStats>, fresh: ModelStats, after: Seq<ModelStats>)
    requires
        merged_stats(before, fresh, after),
    ensures
        exists|i: int|
            {
                &&& #[trigger] first_named(after, fresh.name@, i)
                &&& after[i].usage.total_tokens == fresh.usage.total_tokens
                &&& after[i].usage.prompt_tokens == fresh.usage.prompt_tokens
                &&& after[i].usage.completion_tokens == fresh.usage.completion_tokens
                &&& after[i].response_time_ns == fresh.response_time_ns
                &&& after[i].current_token_count == fresh.current_token_count
            },
{
    let i = match lemma_merge_position(before, fresh, after) {
        Some(i) => i,
        None => before.len() as int,
    };
    assert forall|j: int| 0 <= j < i implies (#[trigger] after[j]).name@ != fresh.name@ by {
        assert(after[j] == before[j]);
    }
    assert(first_named(after, fresh.name@, i));
}

/// Refreshing a model that already has stats replaces that entry in place:
/// the fresh figures, one more refresh than before, and the previous history
/// with the fresh count added at the end, the oldest count dropped once the
/// history already held `TOKEN_HISTORY_CAP` counts. Every other entry stays.
pub proof fn lemma_merge_into_known_model(
    before: Seq<ModelStats>,
    fresh: ModelStats,
    after: Seq<ModelStats>,
    i: int,
)
    requires
        merged_stats(before, fresh, after),
        first_named(before, fresh.name@, i),
    ensures
        after.len() == before.len(),
        forall|j: int| 0 <= j < before.len() && j != i ==> after[j] == before[j],
        after[i].name@ == fresh.name@,
        after[i].usage.total_tokens == fresh.usage.total_tokens,
        after[i].usage.prompt_tokens == fresh.usage.prompt_tokens,
        after[i].usage.completion_tokens == fresh.usage.completion_tokens,
        after[i].response_time_ns == fresh.response_time_ns,
        after[i].current_token_count == fresh.current_token_count,
        after[i].completion_count == before[i].completion_count + 1,
        after[i].token_history@.len() > 0,
        after[i].token_history@[after[i].token_history@.len() - 1] == fresh.current_token_count,
        before[i].token_history@.len() < TOKEN_HISTORY_CAP ==> {
            &&& after[i].token_history@.len() == before[i].token_history@.len() + 1
            &&& forall|j: int|
                0 <= j < before[i].token_history@.len() ==> after[i].token_history@[j]
                    == before[i].token_history@[j]
        },
        before[i].token_history@.len() >= TOKEN_HISTORY_CAP ==> {
            &&& after[i].token_history@.len() == before[i].token_history@.len()
            &&& forall|j: int|
                0 <= j < before[i].token_history@.len() - 1 ==> after[i].token_history@[j]
                    == before[i].token_history@[j + 1]
        },
{
    match lemma_merge_position(before, fresh, after) {
        Some(k) => {
            lemma_first_named_unique(before, fresh.name@, i, k);
        },
        None => {
            assert(before[i].name@ != fresh.name@);
        },
    }
}

/// Stats for a model not seen before are appended as they came, every figure
/// kept, their history followed by their own token count. Every earlier entry stays.
pub proof fn lemma_merge_new_model(before: Seq<ModelStats>, fresh: ModelStats, after: Seq<ModelStats>)
    requires
        merged_stats(before, fresh, after),
        !has_name(before, fresh.name@),
    ensures
        after.len() == before.len() + 1,
        forall|j: int| 0 <= j < before.len() ==> after[j] == before[j],
        after[before.len() as int].name@ == fresh.name@,
        after[before.len() as int].usage.total_tokens == fresh.usage.total_tokens,
        after[before.len() as int].usage.prompt_tokens == fresh.usage.prompt_tokens,
        after[before.len() as int].usage.completion_tokens == fresh.usage.completion_tokens,
        after[before.len() as int].response_time_ns == fresh.response_time_ns,
        after[before.len() as int].current_token_count == fresh.current_token_count,
        after[before.len() as int].completion_count == fresh.completion_count,
        after[before.len() as int].token_history@.len() == fresh.token_history@.len() + 1,
        forall|j: int|
            0 <= j < fresh.token_history@.len() ==> after[before.len() as int].token_history@[j]
                == fresh.token_history@[j],
        after[before.len() as int].token_history@[fresh.token_history@.len() as int]
            == fresh.current_token_count,
{
    match lemma_merge_position(before, fresh, after) {
        Some(k) => {
            assert(before[k].name@ == fresh.name@);
            assert(false);
        },
        None => {},
    }
}

/// The movement keys: Up and `k` both move one model back, stopping at the
/// first; Down and `j` both move one model on, wrapping from the last to the
/// first; the quit keys and every other key leave the selection.
pub proof fn lemma_key_moves(selected: usize, len: nat)
    requires
        selected < len <= usize::MAX,
    ensures
        selection_after_key(Key::Up, selected, len) == selection_after_key(Key::Char('k'), selected, len),
        selection_after_key(Key::Down, selected, len) == selection_after_key(Key::Char('j'), selected, len),
        selected > 0 ==> selection_after_key(Key::Up, selected, len) == selected - 1,
        selected == 0 ==> selection_after_key(Key::Up, selected, len) == 0,
        selected + 1 < len ==> selection_after_key(Key::Down, selected, len) == selected + 1,
        selected + 1 == len ==> selection_after_key(Key::Down, selected, len) == 0,
        selection_after_key(Key::Char('q'), selected, len) == selected,
        selection_after_key(Key::Char('Q'), selected, len) == selected,
        selection_after_key(Key::Other, selected, len) == selected,
        forall|c: char|
            c != 'k' && c != 'j' ==> selection_after_key(Key::Char(c), selected, len) == selected,
{
    if selected + 1 < len {
        vstd::arithmetic::div_mod::lemma_small_mod((selected + 1) as nat, len);
    } else {
        vstd::arithmetic::div_mod::lemma_mod_self_0(len as int);
    }
}

/// Without models no key moves the selection.
pub proof fn lemma_keys_without_models(key: Key, selected: usize)
    ensures
        selection_after_key(key, selected, 0) == selected,
{
}

/// Exactly `q` and `Q` quit.
pub proof fn lemma_quit_keys(key: Key)
    ensures
        is_quit_key(key) <==> (key == Key::Char('q') || key == Key::Char('Q')),
        is_quit_key(Key::Char('q')),
        is_quit_key(Key::Char('Q')),
        !is_quit_key(Key::Up),
        !is_quit_key(Key::Down),
        !is_quit_key(Key::Other),
{
}

/// Handling any key keeps a selection that lies among the models there.
pub proof fn lemma_key_keeps_selection_in_range(key: Key, selected: usize, len: nat)
    requires
        selected < len,
    ensures
        selection_after_key(key, selected, len) < len,
{
}

/// Moving down once per model comes back to the model one started from.
pub proof fn lemma_next_wraps_around(selected: usize, len: nat)
    requires
        selected < len <= usize::MAX,
    ensures
        next_repeated(selected, len, len) == selected,
{
    lemma_next_repeated_is_offset(selected, len, len);
    vstd::arithmetic::div_mod::lemma_mod_add_multiples_vanish(selected as int, len as int);
    vstd::arithmetic::div_mod::lemma_small_mod(selected as nat, len);
}

/// Moving down `steps` times adds `steps` to the selection, modulo the number of models.
proof fn lemma_next_repeated_is_offset(selected: usize, len: nat, steps: nat)
    requires
        selected < len <= usize::MAX,
    ensures
        next_repeated(selected, len, steps) as int == (selected + steps) % (len as int),
    decreases steps,
{
    if steps == 0 {
        vstd::arithmetic::div_mod::lemma_small_mod(selected as nat, len);
    } else {
        let k = (steps - 1) as nat;
        lemma_next_repeated_is_offset(selected, len, k);
        let r = next_repeated(selected, len, k);
        assert(r as int == (selected + k) % (len as int));
        vstd::arithmetic::div_mod::lemma_mod_bound(r + 1, len as int);
        vstd::arithmetic::div_mod::lemma_add_mod_noop_right(1, selected + k, len as int);
        assert(next_index(r, len) as int == (r + 1) % (len as int));
    }
}

} // verus!
