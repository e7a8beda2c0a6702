//! Process-wide telemetry state: the bounded FIFO event queue with its
//! size-triggered flush, the edit-event coalescer hookup, and the one-shot
//! per-workspace project-type detector.

use vstd::prelude::*;
use crate::coalescer::{
    EventCoalescer, spec_clamped_duration, spec_log_step, clamped_duration_millis,
};

verus! {

/// Compares two string slices by their characters.
fn str_eq(a: &str, b: &str) -> (r: bool)
    ensures
        r == (a@ == b@),
{
    let na = a.unicode_len();
    let nb = b.unicode_len();
    if na != nb {
        return false;
    }
    let mut i: usize = 0;
    while i < na
        invariant
            i <= na,
            na == a@.len() && na == b@.len(),
            forall|m: int| 0 <= m < i ==> a@[m] == b@[m],
        decreases na - i,
    {
        if a.get_char(i) != b.get_char(i) {
            return false;
        }
        i = i + 1;
    }
    proof {
        assert(a@ =~= b@);
    }
    true
}

/// `s` ends with `suffix`.
pub open spec fn spec_ends_with(s: Seq<char>, suffix: Seq<char>) -> bool {
    suffix.len() <= s.len() && s.subrange(s.len() - suffix.len(), s.len() as int) == suffix
}

fn str_ends_with(s: &str, suffix: &str) -> (r: bool)
    ensures
        r == spec_ends_with(s@, suffix@),
{
    let n = s.unicode_len();
    let m = suffix.unicode_len();
    if m > n {
        return false;
    }
    let off = n - m;
    let ghost tail = s@.subrange(s@.len() - suffix@.len(), s@.len() as int);
    let mut i: usize = 0;
    while i < m
        invariant
            i <= m,
            n == s@.len() && m == suffix@.len() && m <= n && off == n - m,
            tail == s@.subrange(s@.len() - suffix@.len(), s@.len() as int),
            forall|k: int| 0 <= k < i ==> s@[off + k] == suffix@[k],
        decreases m - i,
    {
        if s.get_char(off + i) != suffix.get_char(i) {
            proof {
                assert(tail[i as int] == s@[off + i]);
            }
            return false;
        }
        i = i + 1;
    }
    proof {
        assert forall|k: int| 0 <= k < tail.len() implies tail[k] == suffix@[k] by {
            assert(tail[k] == s@[off + k]);
        }
        assert(tail =~= suffix@);
    }
    true
}

/// The project-descriptor family shared by dotnet ecosystems: the two fixed
/// manifest names and the solution and project file extensions.
pub open spec fn spec_is_dotnet_marker(name: Seq<char>) -> bool {
    ||| name == "global.json"@
    ||| name == "Directory.Build.props"@
    ||| spec_ends_with(name, ".csproj"@)
    ||| spec_ends_with(name, ".fsproj"@)
    ||| spec_ends_with(name, ".vbproj"@)
    ||| spec_ends_with(name, ".sln"@)
}

/// The ecosystem tag a file basename signals, if any.  Matching is by name
/// alone, never by path.
pub open spec fn spec_project_type(name: Seq<char>) -> Option<Seq<char>> {
    if name == "pnpm-lock.yaml"@ {
        Some("pnpm"@)
    } else if name == "yarn.lock"@ {
        Some("yarn"@)
    } else if name == "package.json"@ {
        Some("node"@)
    } else if spec_is_dotnet_marker(name) {
        Some("dotnet"@)
    } else {
        None
    }
}

/// Classifies one changed file basename.
pub fn project_type_of_file_name(name: &str) -> (r: Option<&'static str>)
    ensures
        match r {
            Some(tag) => spec_project_type(name@) == Some(tag@),
            None => spec_project_type(name@) is None,
        },
{
    if str_eq(name, "pnpm-lock.yaml") {
        Some("pnpm")
    } else if str_eq(name, "yarn.lock") {
        Some("yarn")
    } else if str_eq(name, "package.json") {
        Some("node")
    } else if str_eq(name, "global.json") || str_eq(name, "Directory.Build.props")
        || str_ends_with(name, ".csproj") || str_ends_with(name, ".fsproj")
        || str_ends_with(name, ".vbproj") || str_ends_with(name, ".sln") {
        Some("dotnet")
    } else {
        None
    }
}

/// The character sequences of a sequence of strings.
pub open spec fn strings_view(v: Seq<String>) -> Seq<Seq<char>> {
    v.map_values(|s: String| s@)
}

/// Some name in `names` signals the ecosystem `tag`.
pub open spec fn spec_has_project_type(names: Seq<Seq<char>>, tag: Seq<char>) -> bool {
    exists|k: int| 0 <= k < names.len() && spec_project_type(#[trigger] names[k]) == Some(tag)
}

/// The deduplicated, alphabetically sorted tags signalled by `names`: one
/// entry per detected ecosystem however many of its files changed.
pub open spec fn spec_project_types(names: Seq<Seq<char>>) -> Seq<Seq<char>> {
    (if spec_has_project_type(names, "dotnet"@) {
        seq!["dotnet"@]
    } else {
        Seq::<Seq<char>>::empty()
    }) + (if spec_has_project_type(names, "node"@) {
        seq!["node"@]
    } else {
        Seq::<Seq<char>>::empty()
    }) + (if spec_has_project_type(names, "pnpm"@) {
        seq!["pnpm"@]
    } else {
        Seq::<Seq<char>>::empty()
    }) + (if spec_has_project_type(names, "yarn"@) {
        seq!["yarn"@]
    } else {
        Seq::<Seq<char>>::empty()
    })
}

/// Extending the scanned prefix by one name adds exactly that name as a
/// possible witness.
proof fn lemma_has_project_type_extend(names: Seq<Seq<char>>, i: int, tag: Seq<char>)
    requires
        0 <= i < names.len(),
    ensures
        spec_has_project_type(names.take(i + 1), tag) == (spec_has_project_type(
            names.take(i),
            tag,
        ) || spec_project_type(names[i]) == Some(tag)),
{
    if spec_has_project_type(names.take(i + 1), tag) {
        let k = choose|k: int|
            0 <= k < names.take(i + 1).len() && spec_project_type(
                #[trigger] names.take(i + 1)[k],
            ) == Some(tag);
        assert(names.take(i + 1)[k] == names[k]);
        if k < i {
            assert(names.take(i)[k] == names[k]);
            assert(spec_has_project_type(names.take(i), tag));
        }
    }
    if spec_has_project_type(names.take(i), tag) {
        let k = choose|k: int|
            0 <= k < names.take(i).len() && spec_project_type(#[trigger] names.take(i)[k])
                == Some(tag);
        assert(names.take(i)[k] == names[k]);
        assert(names.take(i + 1)[k] == names[k]);
        assert(spec_has_project_type(names.take(i + 1), tag));
    }
    if spec_project_type(names[i]) == Some(tag) {
        assert(names.take(i + 1)[i] == names[i]);
        assert(spec_has_project_type(names.take(i + 1), tag));
    }
}

/// The tag list never repeats an entry: each ecosystem surfaces once per
/// scan however many of its marker files changed.
pub proof fn lemma_project_types_distinct(names: Seq<Seq<char>>)
    ensures
        forall|p: int, q: int|
            0 <= p < q < spec_project_types(names).len() ==> spec_project_types(names)[p]
                != spec_project_types(names)[q],
{
    reveal_strlit("dotnet");
    reveal_strlit("node");
    reveal_strlit("pnpm");
    reveal_strlit("yarn");
    assert("dotnet"@.len() == 6);
    assert("node"@[0] == 'n');
    assert("pnpm"@[0] == 'p');
    assert("yarn"@[0] == 'y');
    let r = spec_project_types(names);
    assert forall|p: int, q: int| 0 <= p < q < r.len() implies r[p] != r[q] by {
        assert(r[p] == "dotnet"@ || r[p] == "node"@ || r[p] == "pnpm"@ || r[p] == "yarn"@);
        assert(r[q] == "dotnet"@ || r[q] == "node"@ || r[q] == "pnpm"@ || r[q] == "yarn"@);
    }
}

/// Scans changed file basenames and collects the signalled ecosystem tags,
/// deduplicated and alphabetically sorted.
pub fn project_types_of_file_names(file_names: &Vec<String>) -> (r: Vec<String>)
    ensures
        strings_view(r@) == spec_project_types(strings_view(file_names@)),
{
    let ghost views = strings_view(file_names@);
    let mut has_dotnet = false;
    let mut has_node = false;
    let mut has_pnpm = false;
    let mut has_yarn = false;
    let mut i: usize = 0;
    while i < file_names.len()
        invariant
            i <= file_names.len(),
            views == strings_view(file_names@),
            views.len() == file_names@.len(),
            has_dotnet == spec_has_project_type(views.take(i as int), "dotnet"@),
            has_node == spec_has_project_type(views.take(i as int), "node"@),
            has_pnpm == spec_has_project_type(views.take(i as int), "pnpm"@),
            has_yarn == spec_has_project_type(views.take(i as int), "yarn"@),
        decreases file_names.len() - i,
    {
        proof {
            reveal_strlit("dotnet");
            reveal_strlit("node");
            reveal_strlit("pnpm");
            reveal_strlit("yarn");
            // The four tags are pairwise distinct: lengths or first
            // characters differ.
            assert("dotnet"@.len() == 6);
            assert("node"@[0] == 'n');
            assert("pnpm"@[0] == 'p');
            assert("yarn"@[0] == 'y');
            assert(views[i as int] == file_names@[i as int]@);
            lemma_has_project_type_extend(views, i as int, "dotnet"@);
            lemma_has_project_type_extend(views, i as int, "node"@);
            lemma_has_project_type_extend(views, i as int, "pnpm"@);
            lemma_has_project_type_extend(views, i as int, "yarn"@);
        }
        match project_type_of_file_name(file_names[i].as_str()) {
            Some(tag) => {
                if str_eq(tag, "dotnet") {
                    has_dotnet = true;
                } else if str_eq(tag, "node") {
                    has_node = true;
                } else if str_eq(tag, "pnpm") {
                    has_pnpm = true;
                } else {
                    assert(tag@ == "yarn"@);
                    has_yarn = true;
                }
            },
            None => {},
        }
        i = i + 1;
    }
    proof {
        assert(views.take(file_names@.len() as int) =~= views);
    }
    let mut r: Vec<String> = Vec::new();
    if has_dotnet {
        r.push("dotnet".to_owned());
    }
    let ghost part_dotnet = strings_view(r@);
    proof {
        assert(part_dotnet =~= (if spec_has_project_type(views, "dotnet"@) {
            seq!["dotnet"@]
        } else {
            Seq::<Seq<char>>::empty()
        }));
    }
    if has_node {
        r.push("node".to_owned());
    }
    let ghost part_node = strings_view(r@);
    proof {
        assert(part_node =~= part_dotnet + (if spec_has_project_type(views, "node"@) {
            seq!["node"@]
        } else {
            Seq::<Seq<char>>::empty()
        }));
    }
    if has_pnpm {
        r.push("pnpm".to_owned());
    }
    let ghost part_pnpm = strings_view(r@);
    proof {
        assert(part_pnpm =~= part_node + (if spec_has_project_type(views, "pnpm"@) {
            seq!["pnpm"@]
        } else {
            Seq::<Seq<char>>::empty()
        }));
    }
    if has_yarn {
        r.push("yarn".to_owned());
    }
    proof {
        assert(strings_view(r@) =~= part_pnpm + (if spec_has_project_type(views, "yarn"@) {
            seq!["yarn"@]
        } else {
            Seq::<Seq<char>>::empty()
        }));
        assert(strings_view(r@) =~= spec_project_types(views));
    }
    r
}

/// Whether the user opted into diagnostics and metrics reporting.
#[derive(Clone, Copy, Debug, PartialEq, Eq, Structural)]
pub struct TelemetrySettings {
    pub diagnostics: bool,
    pub metrics: bool,
}

/// One queued telemetry event: an opaque serialized payload and the
/// session-relative timestamp it was recorded at.
#[derive(Debug, PartialEq, Eq)]
pub struct EventWrapper {
    pub milliseconds_since_first_event: u64,
    pub payload: String,
}

impl Clone for EventWrapper {
    fn clone(&self) -> (r: Self)
        ensures
            r == *self,
    {
        EventWrapper {
            milliseconds_since_first_event: self.milliseconds_since_first_event,
            payload: self.payload.clone(),
        }
    }
}

/// A closed edit period ready to be reported, with its duration already
/// clamped.
#[derive(Debug, PartialEq, Eq)]
pub struct EditEvent {
    pub duration_millis: u64,
    pub environment: String,
    pub is_via_ssh: bool,
}

/// What one enqueue does: `.0` is the queue afterwards, `.1` the batch the
/// caller must send.  Reaching `max` events drains the whole queue into a
/// batch; below that the event is only appended.
pub open spec fn spec_enqueue_step(queue: Seq<EventWrapper>, event: EventWrapper, max: nat) -> (
    Seq<EventWrapper>,
    Option<Seq<EventWrapper>>,
) {
    if queue.len() + 1 >= max {
        (Seq::<EventWrapper>::empty(), Some(queue.push(event)))
    } else {
        (queue.push(event), None)
    }
}

pub open spec fn opt_events_view(o: Option<Vec<EventWrapper>>) -> Option<Seq<EventWrapper>> {
    match o {
        Option::Some(v) => Some(v@),
        Option::None => None,
    }
}

/// The queue an enqueue leaves behind never exceeds the configured bound:
/// it is empty right after a flush and below the bound otherwise.
pub proof fn lemma_queue_stays_bounded(queue: Seq<EventWrapper>, event: EventWrapper, max: nat)
    ensures
        max >= 1 ==> spec_enqueue_step(queue, event, max).0.len() < max,
        max == 0 ==> spec_enqueue_step(queue, event, max).0.len() == 0,
{
}

/// The emitted batches of a run of enqueues into an initially empty queue:
/// `.0` is the final queue, `.1` the batches in emission order.
pub open spec fn spec_run_enqueues(events: Seq<EventWrapper>, max: nat) -> (
    Seq<EventWrapper>,
    Seq<Seq<EventWrapper>>,
)
    decreases events.len(),
{
    if events.len() == 0 {
        (Seq::<EventWrapper>::empty(), Seq::<Seq<EventWrapper>>::empty())
    } else {
        let prior = spec_run_enqueues(events.drop_last(), max);
        let step = spec_enqueue_step(prior.0, events.last(), max);
        (
            step.0,
            match step.1 {
                Option::Some(batch) => prior.1.push(batch),
                Option::None => prior.1,
            },
        )
    }
}

proof fn lemma_run_enqueues_fills(events: Seq<EventWrapper>, max: nat)
    requires
        events.len() < max,
    ensures
        spec_run_enqueues(events, max) == (events, Seq::<Seq<EventWrapper>>::empty()),
    decreases events.len(),
{
    if events.len() == 0 {
        assert(spec_run_enqueues(events, max).0 =~= events);
    } else {
        lemma_run_enqueues_fills(events.drop_last(), max);
        assert(events.drop_last().push(events.last()) =~= events);
    }
}

/// Enqueuing exactly `max` events into an empty queue flushes exactly once:
/// the one emitted batch holds all `max` events in insertion order, and the
/// queue is empty immediately afterwards.
pub proof fn lemma_queue_flushes_once(events: Seq<EventWrapper>, max: nat)
    requires
        events.len() == max,
        max >= 1,
    ensures
        spec_run_enqueues(events, max) == (Seq::<EventWrapper>::empty(), seq![events]),
{
    lemma_run_enqueues_fills(events.drop_last(), max);
    assert(events.drop_last().push(events.last()) =~= events);
    assert(Seq::<Seq<EventWrapper>>::empty().push(events) =~= seq![events]);
}

/// The process-wide telemetry state: identifiers, the bounded FIFO event
/// queue, the edit coalescer and the per-workspace one-shot detector set.
/// One instance exists for the process's life; the embedding application
/// guards it with its lock and calls these methods inside the critical
/// section.
pub struct TelemetryState {
    pub settings: TelemetrySettings,
    pub system_id: Option<String>,
    pub installation_id: Option<String>,
    pub session_id: Option<String>,
    pub metrics_id: Option<String>,
    pub is_staff: Option<bool>,
    pub release_channel: Option<String>,
    pub architecture: String,
    pub os_name: String,
    pub os_version: Option<String>,
    pub app_version: String,
    pub first_event_millis: Option<u64>,
    pub events_queue: Vec<EventWrapper>,
    pub event_coalescer: EventCoalescer,
    pub max_queue_size: usize,
    pub worktrees_with_project_type_events_sent: Vec<u64>,
}

fn clone_opt_string(o: &Option<String>) -> (r: Option<String>)
    ensures
        r == *o,
{
    match o {
        Option::Some(s) => Some(s.clone()),
        Option::None => None,
    }
}

fn contains_id(v: &Vec<u64>, x: u64) -> (r: bool)
    ensures
        r == v@.contains(x),
{
    let mut i: usize = 0;
    while i < v.len()
        invariant
            i <= v.len(),
            forall|k: int| 0 <= k < i ==> v@[k] != x,
        decreases v.len() - i,
    {
        if v[i] == x {
            return true;
        }
        i = i + 1;
    }
    false
}

impl TelemetryState {
    /// A fresh state: empty queue, no identifiers, nothing detected yet.
    pub fn new(
        settings: TelemetrySettings,
        release_channel: Option<String>,
        architecture: String,
        os_name: String,
        app_version: String,
        max_queue_size: usize,
        coalesce_gap_millis: u64,
    ) -> (r: Self)
        ensures
            r.settings == settings,
            r.system_id is None && r.installation_id is None && r.session_id is None
                && r.metrics_id is None && r.is_staff is None && r.os_version is None
                && r.first_event_millis is None,
            r.release_channel == release_channel,
            r.architecture == architecture,
            r.os_name == os_name,
            r.app_version == app_version,
            r.events_queue@ == Seq::<EventWrapper>::empty(),
            r.event_coalescer.spec_current() is None,
            r.event_coalescer.spec_max_gap() == coalesce_gap_millis,
            r.max_queue_size == max_queue_size,
            r.worktrees_with_project_type_events_sent@ == Seq::<u64>::empty(),
    {
        TelemetryState {
            settings,
            system_id: None,
            installation_id: None,
            session_id: None,
            metrics_id: None,
            is_staff: None,
            release_channel,
            architecture,
            os_name,
            os_version: None,
            app_version,
            first_event_millis: None,
            events_queue: Vec::new(),
            event_coalescer: EventCoalescer::new(coalesce_gap_millis),
            max_queue_size,
            worktrees_with_project_type_events_sent: Vec::new(),
        }
    }

    /// Begins a session: sets the per-system, per-installation and
    /// per-launch identifiers and refreshes the build strings.
    pub fn start(
        &mut self,
        system_id: Option<String>,
        installation_id: Option<String>,
        session_id: String,
        app_version: String,
        os_name: String,
    )
        ensures
            *final(self) == (TelemetryState {
                system_id,
                installation_id,
                session_id: Some(session_id),
                app_version,
                os_name,
                ..*old(self)
            }),
    {
        self.system_id = system_id;
        self.installation_id = installation_id;
        self.session_id = Some(session_id);
        self.app_version = app_version;
        self.os_name = os_name;
    }

    /// Records the logged-in user, but only when metrics are enabled;
    /// otherwise nothing changes.
    pub fn set_authenticated_user_info(&mut self, metrics_id: Option<String>, is_staff: bool)
        ensures
            !old(self).settings.metrics ==> *final(self) == *old(self),
            old(self).settings.metrics ==> *final(self) == (TelemetryState {
                metrics_id,
                is_staff: Some(is_staff),
                ..*old(self)
            }),
    {
        if !self.settings.metrics {
            return;
        }
        self.metrics_id = metrics_id;
        self.is_staff = Some(is_staff);
    }

    /// The timestamp a new event carries: milliseconds since the session's
    /// first event, which is pinned now if this is the first.
    pub fn relative_event_millis(&mut self, now_millis: u64) -> (r: u64)
        ensures
            match old(self).first_event_millis {
                Option::None => r == 0 && *final(self) == (TelemetryState {
                    first_event_millis: Some(now_millis),
                    ..*old(self)
                }),
                Option::Some(first) => {
                    &&& r == (if now_millis >= first {
                        (now_millis - first) as u64
                    } else {
                        0u64
                    })
                    &&& *final(self) == *old(self)
                },
            },
    {
        match self.first_event_millis {
            None => {
                self.first_event_millis = Some(now_millis);
                0
            },
            Some(first) => {
                if now_millis >= first {
                    now_millis - first
                } else {
                    0
                }
            },
        }
    }

    /// Appends one event to the FIFO queue.  When the queue reaches
    /// `max_queue_size` it is drained on the spot and the batch is returned
    /// for the caller to send; events enqueued later go into the next batch.
    pub fn enqueue_event(&mut self, event: EventWrapper) -> (flushed: Option<Vec<EventWrapper>>)
        ensures
            (final(self).events_queue@, opt_events_view(flushed)) == spec_enqueue_step(
                old(self).events_queue@,
                event,
                old(self).max_queue_size as nat,
            ),
            *final(self) == (TelemetryState {
                events_queue: final(self).events_queue,
                ..*old(self)
            }),
    {
        self.events_queue.push(event);
        if self.events_queue.len() >= self.max_queue_size {
            let mut batch: Vec<EventWrapper> = Vec::new();
            core::mem::swap(&mut batch, &mut self.events_queue);
            Some(batch)
        } else {
            None
        }
    }

    /// Drains the whole queue for a timer-triggered or final flush: the
    /// batch holds every queued event in order.  An empty queue is a no-op
    /// and nothing is sent.
    pub fn flush_events(&mut self) -> (batch: Option<Vec<EventWrapper>>)
        ensures
            old(self).events_queue@.len() == 0 ==> batch is None,
            old(self).events_queue@.len() > 0 ==> opt_events_view(batch) == Some(
                old(self).events_queue@,
            ),
            final(self).events_queue@ == Seq::<EventWrapper>::empty(),
            *final(self) == (TelemetryState {
                events_queue: final(self).events_queue,
                ..*old(self)
            }),
    {
        if self.events_queue.is_empty() {
            return None;
        }
        let mut batch: Vec<EventWrapper> = Vec::new();
        core::mem::swap(&mut batch, &mut self.events_queue);
        Some(batch)
    }

    /// Feeds one edit at `now_millis` to the coalescer.  When that closes a
    /// period, the period comes back as a reportable edit event with its
    /// duration clamped.
    pub fn log_edit_event(&mut self, now_millis: u64, environment: &str, is_via_ssh: bool) -> (r:
        Option<EditEvent>)
        ensures
            ({
                let step = spec_log_step(
                    old(self).event_coalescer.spec_current(),
                    now_millis,
                    environment@,
                    old(self).event_coalescer.spec_max_gap(),
                );
                &&& final(self).event_coalescer.spec_current() == step.0
                &&& final(self).event_coalescer.spec_max_gap() == old(self).event_coalescer.spec_max_gap()
                &&& match step.1 {
                    Option::Some(p) => r matches Some(e) && e.duration_millis
                        == spec_clamped_duration(p.start, p.end) && e.environment@ == p.environment
                        && e.is_via_ssh == is_via_ssh,
                    Option::None => r is None,
                }
            }),
            *final(self) == (TelemetryState {
                event_coalescer: final(self).event_coalescer,
                ..*old(self)
            }),
    {
        let closed_period = self.event_coalescer.log_event(now_millis, environment);
        match closed_period {
            Some(p) => Some(
                EditEvent {
                    duration_millis: clamped_duration_millis(p.start_millis, p.end_millis),
                    environment: p.environment,
                    is_via_ssh,
                },
            ),
            None => None,
        }
    }

    /// Scans a workspace's changed file basenames once: the first scan that
    /// finds ecosystem markers returns their sorted, deduplicated tags and
    /// retires the workspace; later scans of it return `None`.  The set of
    /// retired workspaces only ever grows.
    pub fn detect_project_types(&mut self, worktree_id: u64, file_names: &Vec<String>) -> (r:
        Option<Vec<String>>)
        ensures
            old(self).worktrees_with_project_type_events_sent@.is_prefix_of(
                final(self).worktrees_with_project_type_events_sent@,
            ),
            old(self).worktrees_with_project_type_events_sent@.contains(worktree_id) ==> r is None
                && *final(self) == *old(self),
            !old(self).worktrees_with_project_type_events_sent@.contains(worktree_id) ==> {
                &&& r matches Some(tags) && strings_view(tags@) == spec_project_types(
                    strings_view(file_names@),
                )
                &&& (spec_project_types(strings_view(file_names@)).len() > 0 ==> final(self).worktrees_with_project_type_events_sent@ == old(self).worktrees_with_project_type_events_sent@.push(worktree_id))
                &&& (spec_project_types(strings_view(file_names@)).len() == 0 ==> final(self).worktrees_with_project_type_events_sent@ == old(self).worktrees_with_project_type_events_sent@)
            },
            *final(self) == (TelemetryState {
                worktrees_with_project_type_events_sent: final(self).worktrees_with_project_type_events_sent,
                ..*old(self)
            }),
    {
        if contains_id(&self.worktrees_with_project_type_events_sent, worktree_id) {
            return None;
        }
        let tags = project_types_of_file_names(file_names);
        if !tags.is_empty() {
            proof {
                assert(strings_view(tags@).len() == tags@.len());
            }
            self.worktrees_with_project_type_events_sent.push(worktree_id);
        } else {
            proof {
                assert(strings_view(tags@).len() == tags@.len());
            }
        }
        Some(tags)
    }

    /// Whether metric events may be recorded at all.
    pub fn metrics_enabled(&self) -> (r: bool)
        ensures
            r == self.settings.metrics,
    {
        self.settings.metrics
    }

    pub fn metrics_id(&self) -> (r: Option<String>)
        ensures
            r == self.metrics_id,
    {
        clone_opt_string(&self.metrics_id)
    }

    pub fn system_id(&self) -> (r: Option<String>)
        ensures
            r == self.system_id,
    {
        clone_opt_string(&self.system_id)
    }

    pub fn installation_id(&self) -> (r: Option<String>)
        ensures
            r == self.installation_id,
    {
        clone_opt_string(&self.installation_id)
    }

    pub fn is_staff(&self) -> (r: Option<bool>)
        ensures
            r == self.is_staff,
    {
        self.is_staff
    }
}

/// Which reported event an assistant interaction becomes.
#[derive(Clone, Copy, Debug, PartialEq, Eq, Structural)]
pub enum AssistantPhase {
    Response,
    Invoked,
    Accepted,
    Rejected,
}

pub open spec fn spec_assistant_event_type(phase: AssistantPhase) -> Seq<char> {
    match phase {
        AssistantPhase::Response => "Assistant Responded"@,
        AssistantPhase::Invoked => "Assistant Invoked"@,
        AssistantPhase::Accepted => "Assistant Response Accepted"@,
        AssistantPhase::Rejected => "Assistant Response Rejected"@,
    }
}

/// The event name an assistant interaction is reported under.
pub fn assistant_event_type(phase: AssistantPhase) -> (r: &'static str)
    ensures
        r@ == spec_assistant_event_type(phase),
{
    match phase {
        AssistantPhase::Response => "Assistant Responded",
        AssistantPhase::Invoked => "Assistant Invoked",
        AssistantPhase::Accepted => "Assistant Response Accepted",
        AssistantPhase::Rejected => "Assistant Response Rejected",
    }
}

} // verus!
