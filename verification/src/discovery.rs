//! Gathering LCU credentials from the command lines of running client
//! processes, grouped by client directory.
use vstd::prelude::*;
use vstd::string::*;

use crate::cmdline::{
    complete_auth, has_lcu_args, merge_conflicts_of, merge_partial,
    parse_partial_auth_from_command_line, MergeConflicts, MergeConflictsView, PartialAuth,
    PartialAuthView, partial_auth_of,
};
use crate::lcu::{
    dir_key_accepts, is_league_client_name, is_league_client_process, opt_view, AuthView,
    ClientDirFilter, LcuAuth,
};
use crate::text::{decimal, push_decimal};

verus! {

/// How a command line was read from a process.
#[derive(Debug, PartialEq, Eq)]
pub enum CommandLineVia {
    /// `NtQueryInformationProcess(ProcessCommandLineInformation)`.
    NtQuery,
    /// The process environment block, read from the process's memory.
    Peb,
}

/// The name of a [`CommandLineVia`] in source descriptions.
pub open spec fn via_name(via: CommandLineVia) -> Seq<char> {
    match via {
        CommandLineVia::NtQuery => "cmdline_ntq"@,
        CommandLineVia::Peb => "cmdline_peb"@,
    }
}

/// `pid={pid}, exe_name={exe_name}, exe={exe_path}`.
pub open spec fn process_source_of(pid: u32, exe_name: Seq<char>, exe_path: Seq<char>) -> Seq<char> {
    "pid="@ + decimal(pid as nat) + ", exe_name="@ + exe_name + ", exe="@ + exe_path
}

/// The description of a client process used in source lists.
pub fn process_source(pid: u32, exe_name: &str, exe_path: &str) -> (r: String)
    ensures
        r@ == process_source_of(pid, exe_name@, exe_path@),
{
    let mut r = "pid=".to_owned();
    push_decimal(&mut r, pid as u128);
    r.append(", exe_name=");
    r.append(exe_name);
    r.append(", exe=");
    r.append(exe_path);
    r
}

/// The running clients found in one directory.
pub struct ClientGroup {
    key: String,
    dir: String,
    partial: PartialAuth,
    sources: Vec<String>,
}

/// The mathematical content of a [`ClientGroup`].
pub struct GroupView {
    pub key: Seq<char>,
    pub dir: Seq<char>,
    pub partial: PartialAuthView,
    pub sources: Seq<Seq<char>>,
}

impl View for ClientGroup {
    type V = GroupView;

    closed spec fn view(&self) -> GroupView {
        GroupView {
            key: self.key@,
            dir: self.dir@,
            partial: self.partial@,
            sources: self.sources@.map_values(|s: String| s@),
        }
    }
}

/// The index of the group whose key is `key`, searching from `i`.
pub open spec fn group_index_from(groups: Seq<GroupView>, key: Seq<char>, i: int) -> Option<int>
    decreases groups.len() - i,
{
    if i < 0 || i >= groups.len() {
        None
    } else if groups[i].key == key {
        Some(i)
    } else {
        group_index_from(groups, key, i + 1)
    }
}

/// The groups after a client in directory `key` (shown as `dir`), described
/// by `source`, whose command line names `p`: a command line that names
/// neither port nor token changes nothing; otherwise the source joins the
/// group of that directory, which is created (in last place) if it does not
/// exist, and the group's missing credential parts are taken from `p`.
pub open spec fn record_client(
    groups: Seq<GroupView>,
    key: Seq<char>,
    dir: Seq<char>,
    source: Seq<char>,
    p: PartialAuthView,
) -> Seq<GroupView> {
    if !has_lcu_args(p) {
        groups
    } else {
        match group_index_from(groups, key, 0) {
            Some(i) => groups.update(
                i,
                GroupView {
                    key: groups[i].key,
                    dir: groups[i].dir,
                    partial: merge_partial(groups[i].partial, p),
                    sources: groups[i].sources.push(source),
                },
            ),
            None => groups.push(GroupView { key, dir, partial: p, sources: seq![source] }),
        }
    }
}

/// What recording one process gave.
#[derive(Debug, PartialEq, Eq)]
pub enum RecordOutcome {
    /// The process is not a League client: ignored.
    NotClient,
    /// The command line names neither port nor token: ignored.
    NoLcuArgs,
    /// Recorded; the parts on which the command line disagrees with what
    /// was gathered before for the same directory.
    Recorded(MergeConflicts),
}

/// The mathematical content of a [`RecordOutcome`].
pub enum RecordOutcomeView {
    NotClient,
    NoLcuArgs,
    Recorded(MergeConflictsView),
}

impl View for RecordOutcome {
    type V = RecordOutcomeView;

    open spec fn view(&self) -> RecordOutcomeView {
        match self {
            RecordOutcome::NotClient => RecordOutcomeView::NotClient,
            RecordOutcome::NoLcuArgs => RecordOutcomeView::NoLcuArgs,
            RecordOutcome::Recorded(c) => RecordOutcomeView::Recorded(c@),
        }
    }
}

/// No disagreement.
pub open spec fn no_conflicts() -> MergeConflictsView {
    MergeConflictsView { protocol: None, port: None, password: false }
}

/// What recording a client command line that names `p` in directory `key`
/// reports: nothing to record, or the disagreements with the directory's
/// group (none when the group is new).
pub open spec fn record_outcome_of(groups: Seq<GroupView>, key: Seq<char>, p: PartialAuthView) -> RecordOutcomeView {
    if !has_lcu_args(p) {
        RecordOutcomeView::NoLcuArgs
    } else {
        match group_index_from(groups, key, 0) {
            Some(i) => RecordOutcomeView::Recorded(merge_conflicts_of(groups[i].partial, p)),
            None => RecordOutcomeView::Recorded(no_conflicts()),
        }
    }
}

/// The groups after a process named `exe_name`: a League client is recorded
/// as [`record_client`] says, any other process changes nothing.
pub open spec fn record_process_of(
    groups: Seq<GroupView>,
    exe_name: Seq<char>,
    key: Seq<char>,
    dir: Seq<char>,
    source: Seq<char>,
    p: PartialAuthView,
) -> Seq<GroupView> {
    if is_league_client_name(exe_name) {
        record_client(groups, key, dir, source, p)
    } else {
        groups
    }
}

/// One process of a process snapshot, as the scan sees it.
pub struct ProcessSeen {
    pub exe_name: Seq<char>,
    pub key: Seq<char>,
    pub dir: Seq<char>,
    pub source: Seq<char>,
    pub partial: PartialAuthView,
}

/// The groups after recording the processes `procs` in order, starting
/// from `groups`.
pub open spec fn collect_from(groups: Seq<GroupView>, procs: Seq<ProcessSeen>) -> Seq<GroupView>
    decreases procs.len(),
{
    if procs.len() == 0 {
        groups
    } else {
        let q = procs[0];
        collect_from(
            record_process_of(groups, q.exe_name, q.key, q.dir, q.source, q.partial),
            procs.skip(1),
        )
    }
}

/// A client directory for which some credentials were found, but not both
/// port and token.
#[derive(Debug, PartialEq, Eq)]
pub struct IncompleteClient {
    pub dir: String,
    pub has_port: bool,
    pub has_token: bool,
}

/// The directories, among `groups` in group order, that the filter accepts
/// but whose credentials lack the port or the token: directory, whether a
/// port is known, whether a token is known.
pub open spec fn incomplete(groups: Seq<GroupView>, filter: Option<Seq<char>>) -> Seq<(Seq<char>, bool, bool)>
    decreases groups.len(),
{
    if groups.len() == 0 {
        seq![]
    } else {
        let prev = incomplete(groups.drop_last(), filter);
        let g = groups.last();
        if filter matches Some(f) && !dir_key_accepts(f, g.key) {
            prev
        } else if complete_auth(g.partial) is Some {
            prev
        } else {
            prev.push((g.dir, g.partial.port is Some, g.partial.password is Some))
        }
    }
}

/// The views of a list of incomplete clients.
pub open spec fn incomplete_view(v: Seq<IncompleteClient>) -> Seq<(Seq<char>, bool, bool)> {
    v.map_values(|e: IncompleteClient| (e.dir@, e.has_port, e.has_token))
}

/// `items` joined by `sep`.
pub open spec fn join(items: Seq<Seq<char>>, sep: Seq<char>) -> Seq<char>
    decreases items.len(),
{
    if items.len() == 0 {
        seq![]
    } else if items.len() == 1 {
        items[0]
    } else {
        join(items.drop_last(), sep) + sep + items.last()
    }
}

/// `client_dir={dir}, sources={sources joined by " | ", or "unknown"}`.
pub open spec fn group_description(g: GroupView) -> Seq<char> {
    "client_dir="@ + g.dir + ", sources="@ + if g.sources.len() == 0 {
        "unknown"@
    } else {
        join(g.sources, " | "@)
    }
}

/// The connectable clients among `groups`, in group order: those that the
/// filter (a directory key) accepts and whose credentials are complete, each
/// with the description of its group.
pub open spec fn connectable(groups: Seq<GroupView>, filter: Option<Seq<char>>) -> Seq<(AuthView, Seq<char>)>
    decreases groups.len(),
{
    if groups.len() == 0 {
        seq![]
    } else {
        let prev = connectable(groups.drop_last(), filter);
        let g = groups.last();
        if filter matches Some(f) && !dir_key_accepts(f, g.key) {
            prev
        } else {
            match complete_auth(g.partial) {
                Some(a) => prev.push((a, group_description(g))),
                None => prev,
            }
        }
    }
}

/// The views of a list of credentials with their descriptions.
pub open spec fn auth_list_view(v: Seq<(LcuAuth, String)>) -> Seq<(AuthView, Seq<char>)> {
    v.map_values(|e: (LcuAuth, String)| (e.0@, e.1@))
}

/// The directory key of a filter, if any.
pub open spec fn filter_key(filter: Option<&ClientDirFilter>) -> Option<Seq<char>> {
    match filter {
        Some(f) => Some(f.exact_key()),
        None => None,
    }
}

/// Credentials gathered from running clients, one group per directory.
pub struct AuthCollector {
    groups: Vec<ClientGroup>,
}

impl View for AuthCollector {
    type V = Seq<GroupView>;

    closed spec fn view(&self) -> Seq<GroupView> {
        self.groups@.map_values(|g: ClientGroup| g@)
    }
}

/// No two groups share a directory key.
pub open spec fn keys_distinct(groups: Seq<GroupView>) -> bool {
    forall|i: int, j: int|
        0 <= i < groups.len() && 0 <= j < groups.len() && i != j ==> groups[i].key != groups[j].key
}

proof fn lemma_group_index(groups: Seq<GroupView>, key: Seq<char>, i: int)
    requires
        0 <= i,
    ensures
        match group_index_from(groups, key, i) {
            Some(k) => i <= k < groups.len() && groups[k].key == key,
            None => forall|t: int| i <= t < groups.len() ==> groups[t].key != key,
        },
    decreases groups.len() - i,
{
    if i < groups.len() && groups[i].key != key {
        lemma_group_index(groups, key, i + 1);
    }
}

impl PartialAuth {
    /// A copy of the credentials.
    pub fn clone_partial(&self) -> (r: PartialAuth)
        ensures
            r@ == self@,
    {
        PartialAuth {
            protocol: match &self.protocol {
                Some(s) => Some(s.clone()),
                None => None,
            },
            port: self.port,
            password: match &self.password {
                Some(s) => Some(s.clone()),
                None => None,
            },
        }
    }
}

fn joined_sources(sources: &Vec<String>) -> (r: String)
    ensures
        r@ == (if sources@.len() == 0 {
            "unknown"@
        } else {
            join(sources@.map_values(|s: String| s@), " | "@)
        }),
{
    if sources.len() == 0 {
        return "unknown".to_owned();
    }
    let ghost items = sources@.map_values(|s: String| s@);
    let mut r = sources[0].clone();
    let mut i: usize = 1;
    assert(items.take(1).drop_last() =~= Seq::<Seq<char>>::empty());
    while i < sources.len()
        invariant
            1 <= i <= sources.len(),
            items == sources@.map_values(|s: String| s@),
            r@ == join(items.take(i as int), " | "@),
        decreases sources.len() - i,
    {
        r.append(" | ");
        r.append(sources[i].as_str());
        i = i + 1;
        assert(items.take(i as int).drop_last() =~= items.take(i - 1));
    }
    assert(items.take(sources.len() as int) =~= items);
    r
}

impl AuthCollector {
    #[verifier::type_invariant]
    closed spec fn wf(&self) -> bool {
        keys_distinct(self@)
    }

    /// No client seen yet.
    pub fn new() -> (r: AuthCollector)
        ensures
            r@ == Seq::<GroupView>::empty(),
    {
        let r = AuthCollector { groups: Vec::new() };
        assert(r@ =~= Seq::<GroupView>::empty());
        r
    }

    /// Records the command line `cmd` of a client process whose directory
    /// has the key `key` (shown as `dir`), described by `source_base` and
    /// read via `via`.
    pub fn record_command_line(
        &mut self,
        key: &str,
        dir: &str,
        source_base: &str,
        via: CommandLineVia,
        cmd: &str,
    ) -> (r: RecordOutcome)
        ensures
            r@ == record_outcome_of(old(self)@, key@, partial_auth_of(cmd@)),
            final(self)@ == record_client(
                old(self)@,
                key@,
                dir@,
                source_base@ + ", via="@ + via_name(via),
                partial_auth_of(cmd@),
            ),
    {
        let partial = parse_partial_auth_from_command_line(cmd);
        let mut source = source_base.to_owned();
        source.append(", via=");
        match via {
            CommandLineVia::NtQuery => source.append("cmdline_ntq"),
            CommandLineVia::Peb => source.append("cmdline_peb"),
        }
        if partial.port.is_none() && partial.password.is_none() {
            return RecordOutcome::NoLcuArgs;
        }
        proof {
            use_type_invariant(&*self);
        }
        let ghost groups = self@;
        let mut gs: Vec<ClientGroup> = Vec::new();
        std::mem::swap(&mut gs, &mut self.groups);
        assert(gs@.map_values(|g: ClientGroup| g@) == groups);
        let key_s = key.to_owned();
        let mut i: usize = 0;
        while i < gs.len() && !(gs[i].key == key_s)
            invariant
                i <= gs@.len(),
                groups == gs@.map_values(|g: ClientGroup| g@),
                key_s@ == key@,
                group_index_from(groups, key@, 0) == group_index_from(groups, key@, i as int),
            decreases gs@.len() - i,
        {
            i = i + 1;
        }
        proof {
            lemma_group_index(groups, key@, 0);
        }
        let outcome = if i < gs.len() {
            assert(group_index_from(groups, key@, 0) == Some(i as int));
            let ghost old_gs = gs@;
            let mut g = gs.remove(i);
            let ghost gv = g@;
            let conflicts = g.partial.merge(partial);
            g.sources.push(source);
            assert(g@.sources =~= gv.sources.push(source@));
            gs.insert(i, g);
            let ghost expected = record_client(groups, key@, dir@, source@, partial_auth_of(cmd@));
            assert(gs@.len() == expected.len());
            assert forall|j: int| 0 <= j < gs@.len() implies #[trigger] gs@[j]@ == expected[j] by {
                if j < i {
                    assert(gs@[j] == old_gs[j]);
                } else if j > i {
                    assert(gs@[j] == old_gs[j]);
                } else {
                    assert(gv == groups[j]);
                }
            }
            assert(gs@.map_values(|g: ClientGroup| g@) =~= expected);
            RecordOutcome::Recorded(conflicts)
        } else {
            let mut sources: Vec<String> = Vec::new();
            sources.push(source);
            assert(group_index_from(groups, key@, 0) is None);
            let ghost pv = partial@;
            let ng = ClientGroup { key: key_s, dir: dir.to_owned(), partial, sources };
            assert(ng@.sources =~= seq![source@]);
            assert(ng@ == GroupView { key: key@, dir: dir@, partial: pv, sources: seq![source@] });
            let ghost old_gs = gs@;
            gs.push(ng);
            assert(gs@.map_values(|g: ClientGroup| g@) =~= old_gs.map_values(|g: ClientGroup| g@).push(ng@));
            RecordOutcome::Recorded(MergeConflicts { protocol: None, port: None, password: false })
        };
        assert(gs@.map_values(|g: ClientGroup| g@) =~= record_client(
            groups,
            key@,
            dir@,
            source@,
            partial_auth_of(cmd@),
        ));
        self.groups = gs;
        outcome
    }

    /// Records a process named `exe_name`: a League client's command line
    /// as [`AuthCollector::record_command_line`] does; any other process is
    /// ignored.
    pub fn record_process(
        &mut self,
        exe_name: &str,
        key: &str,
        dir: &str,
        source_base: &str,
        via: CommandLineVia,
        cmd: &str,
    ) -> (r: RecordOutcome)
        ensures
            is_league_client_name(exe_name@) ==> r@ == record_outcome_of(
                old(self)@,
                key@,
                partial_auth_of(cmd@),
            ),
            !is_league_client_name(exe_name@) ==> r@ == RecordOutcomeView::NotClient,
            final(self)@ == record_process_of(
                old(self)@,
                exe_name@,
                key@,
                dir@,
                source_base@ + ", via="@ + via_name(via),
                partial_auth_of(cmd@),
            ),
    {
        if !is_league_client_process(exe_name) {
            return RecordOutcome::NotClient;
        }
        self.record_command_line(key, dir, source_base, via, cmd)
    }

    /// The clients that can be connected to, in the order their directories
    /// were first seen: the filter, when given, keeps only the directories
    /// it accepts, and only groups with both port and token are kept.
    pub fn into_results(&self, filter: Option<&ClientDirFilter>) -> (r: Vec<(LcuAuth, String)>)
        ensures
            auth_list_view(r@) == connectable(self@, filter_key(filter)),
    {
        let ghost groups = self@;
        let mut r: Vec<(LcuAuth, String)> = Vec::new();
        let mut i: usize = 0;
        while i < self.groups.len()
            invariant
                i <= self.groups@.len(),
                groups == self@,
                self@ == self.groups@.map_values(|g: ClientGroup| g@),
                auth_list_view(r@) == connectable(groups.take(i as int), filter_key(filter)),
            decreases self.groups@.len() - i,
        {
            let g = &self.groups[i];
            assert(groups.take(i + 1).drop_last() =~= groups.take(i as int));
            let keep = match filter {
                Some(f) => f.matches_key(g.key.as_str()),
                None => true,
            };
            if keep {
                match g.partial.clone_partial().into_auth() {
                    Some(auth) => {
                        let mut d = "client_dir=".to_owned();
                        d.append(g.dir.as_str());
                        d.append(", sources=");
                        let joined = joined_sources(&g.sources);
                        d.append(joined.as_str());
                        r.push((auth, d));
                        assert(auth_list_view(r@) =~= connectable(
                            groups.take(i + 1),
                            filter_key(filter),
                        ));
                    },
                    None => {},
                }
            }
            i = i + 1;
        }
        assert(groups.take(self.groups@.len() as int) =~= groups);
        r
    }

    /// The directories that the filter (when given) accepts but whose
    /// credentials lack the port or the token, in the order they were
    /// first seen, with what is known of each.
    pub fn incomplete_clients(&self, filter: Option<&ClientDirFilter>) -> (r: Vec<IncompleteClient>)
        ensures
            incomplete_view(r@) == incomplete(self@, filter_key(filter)),
    {
        let ghost groups = self@;
        let mut r: Vec<IncompleteClient> = Vec::new();
        let mut i: usize = 0;
        while i < self.groups.len()
            invariant
                i <= self.groups@.len(),
                groups == self@,
                self@ == self.groups@.map_values(|g: ClientGroup| g@),
                incomplete_view(r@) == incomplete(groups.take(i as int), filter_key(filter)),
            decreases self.groups@.len() - i,
        {
            let g = &self.groups[i];
            assert(groups.take(i + 1).drop_last() =~= groups.take(i as int));
            assert(groups.take(i + 1).last() == g@);
            let keep = match filter {
                Some(f) => f.matches_key(g.key.as_str()),
                None => true,
            };
            if keep {
                let has_port = g.partial.port.is_some();
                let has_token = g.partial.password.is_some();
                if !(has_port && has_token) {
                    r.push(IncompleteClient { dir: g.dir.clone(), has_port, has_token });
                    assert(incomplete_view(r@) =~= incomplete(groups.take(i + 1), filter_key(filter)));
                }
            }
            i = i + 1;
        }
        assert(groups.take(self.groups@.len() as int) =~= groups);
        r
    }
}

proof fn lemma_collect_concat(g: Seq<GroupView>, a: Seq<ProcessSeen>, c: Seq<ProcessSeen>)
    ensures
        collect_from(g, a + c) == collect_from(collect_from(g, a), c),
    decreases a.len(),
{
    if a.len() == 0 {
        assert(a + c =~= c);
    } else {
        let q = a[0];
        let g1 = record_process_of(g, q.exe_name, q.key, q.dir, q.source, q.partial);
        assert((a + c)[0] == q);
        assert((a + c).skip(1) =~= a.skip(1) + c);
        lemma_collect_concat(g1, a.skip(1), c);
    }
}

/// Processes that are not League clients never count: adding one to a
/// snapshot, anywhere and whatever its command line names, changes neither
/// the groups gathered nor the clients offered for connection.
pub proof fn law_other_processes_ignored(
    a: Seq<ProcessSeen>,
    q: ProcessSeen,
    b: Seq<ProcessSeen>,
    filter: Option<Seq<char>>,
)
    requires
        !is_league_client_name(q.exe_name),
    ensures
        collect_from(Seq::empty(), a + seq![q] + b) == collect_from(Seq::empty(), a + b),
        connectable(collect_from(Seq::empty(), a + seq![q] + b), filter) == connectable(
            collect_from(Seq::empty(), a + b),
            filter,
        ),
{
    let e = Seq::<GroupView>::empty();
    lemma_collect_concat(e, a + seq![q], b);
    lemma_collect_concat(e, a, seq![q]);
    lemma_collect_concat(e, a, b);
    let ga = collect_from(e, a);
    assert(seq![q].skip(1) =~= Seq::<ProcessSeen>::empty());
    assert(collect_from(ga, seq![q]) == collect_from(ga, seq![q].skip(1)));
}


/// A single client process whose command line names port and token is the
/// one connectable client, described by its directory and source.
pub proof fn law_single_client_connectable(key: Seq<char>, dir: Seq<char>, source: Seq<char>, p: PartialAuthView)
    requires
        complete_auth(p) is Some,
    ensures
        connectable(record_client(Seq::empty(), key, dir, source, p), None) == seq![
            (complete_auth(p)->0, "client_dir="@ + dir + ", sources="@ + source),
        ],
{
    let g = record_client(Seq::empty(), key, dir, source, p);
    assert(g =~= seq![GroupView { key, dir, partial: p, sources: seq![source] }]);
    assert(g.drop_last() =~= Seq::<GroupView>::empty());
    assert(join(seq![source], " | "@) == source);
    assert(connectable(g.drop_last(), None) == Seq::<(AuthView, Seq<char>)>::empty());
    assert(g.last() == g[0]);
    assert(connectable(g, None) =~= seq![(complete_auth(p)->0, group_description(g[0]))]);
}

/// A client that the filter rejects is never offered for connection,
/// whatever its credentials.
pub proof fn law_filtered_out(groups: Seq<GroupView>, f: Seq<char>, i: int)
    requires
        0 <= i < connectable(groups, Some(f)).len(),
    ensures
        exists|j: int|
            0 <= j < groups.len() && dir_key_accepts(f, #[trigger] groups[j].key)
                && complete_auth(groups[j].partial) == Some(connectable(groups, Some(f))[i].0),
    decreases groups.len(),
{
    let prev = connectable(groups.drop_last(), Some(f));
    if i < prev.len() {
        law_filtered_out(groups.drop_last(), f, i);
        let j = choose|j: int|
            0 <= j < groups.drop_last().len() && dir_key_accepts(f, #[trigger] groups.drop_last()[j].key)
                && complete_auth(groups.drop_last()[j].partial) == Some(prev[i].0);
        assert(groups[j] == groups.drop_last()[j]);
    } else {
        assert(groups[groups.len() - 1] == groups.last());
    }
}


/// `STATUS_BUFFER_TOO_SMALL` (`0xC0000023` as a signed status).
pub const STATUS_BUFFER_TOO_SMALL: i32 = -1073741789i32;

/// `STATUS_INFO_LENGTH_MISMATCH` (`0xC0000004` as a signed status).
pub const STATUS_INFO_LENGTH_MISMATCH: i32 = -1073741820i32;

/// The first buffer size, in bytes, for reading a command line.
pub const COMMAND_LINE_INITIAL_BYTES: usize = 16384usize;

/// How many buffer sizes are tried before giving up.
pub const COMMAND_LINE_ATTEMPTS: usize = 6usize;

/// What to do after `NtQueryInformationProcess` returned a status.
#[derive(Debug, PartialEq, Eq)]
pub enum QueryStatus {
    /// The buffer was too small: try again with a larger one.
    Retry,
    /// Any other failure.
    Failed,
    /// The buffer holds the command line.
    Succeeded,
}

/// The meaning of a status returned by a command-line query.
pub open spec fn query_status_of(status: i32) -> QueryStatus {
    if status == STATUS_INFO_LENGTH_MISMATCH || status == STATUS_BUFFER_TOO_SMALL {
        QueryStatus::Retry
    } else if status < 0 {
        QueryStatus::Failed
    } else {
        QueryStatus::Succeeded
    }
}

/// The meaning of a status returned by a command-line query: the two
/// "buffer too small" statuses ask for a retry, other negative statuses
/// are failures.
pub fn command_line_query_status(status: i32) -> (r: QueryStatus)
    ensures
        r == query_status_of(status),
{
    if status == STATUS_INFO_LENGTH_MISMATCH || status == STATUS_BUFFER_TOO_SMALL {
        QueryStatus::Retry
    } else if status < 0 {
        QueryStatus::Failed
    } else {
        QueryStatus::Succeeded
    }
}

/// `min(x, usize::MAX)`.
pub open spec fn saturate(x: int) -> int {
    if x > usize::MAX {
        usize::MAX as int
    } else {
        x
    }
}

/// The next buffer size after a "too small" answer: the larger of the
/// current size and the size the system suggested, plus 4096, doubled
/// (each step saturating at `usize::MAX`).
pub open spec fn next_buffer_size(size: usize, suggested: usize) -> int {
    let base = if size >= suggested {
        size as int
    } else {
        suggested as int
    };
    saturate(saturate(base + 4096) * 2)
}

/// The next buffer size for a command-line query.
pub fn next_command_line_buffer_size(size: usize, suggested: usize) -> (r: usize)
    ensures
        r == next_buffer_size(size, suggested),
        size < usize::MAX ==> r > size,
{
    let base = if size >= suggested {
        size
    } else {
        suggested
    };
    let grown = base.saturating_add(4096);
    match grown.checked_mul(2) {
        Some(v) => v,
        None => usize::MAX,
    }
}

/// The number of UTF-16 units in a buffer of `size` bytes, rounded up.
pub fn buffer_units(size: usize) -> (r: usize)
    requires
        size < usize::MAX,
    ensures
        r == (size + 1) / 2,
{
    (size + 1) / 2
}

/// Why the command line in a query buffer cannot be read.
#[derive(Debug, PartialEq, Eq)]
pub enum CommandLineWindowError {
    /// The length is zero or the text pointer is null.
    Empty,
    /// The text does not lie inside the buffer.
    OutsideBuffer,
    /// The text does not start on a UTF-16 unit.
    Misaligned,
    /// The text runs past the buffer's units.
    OutOfBounds,
}

/// Where the command line lies in a query buffer, in UTF-16 units
/// (`start`, `end`), or why it cannot be read. The buffer occupies the
/// addresses `base..buffer_end` and holds `units` units; the system reported
/// the text at address `ptr` with `length` bytes.
pub open spec fn command_line_window_of(
    length: u16,
    ptr: usize,
    base: usize,
    buffer_end: usize,
    units: usize,
) -> Result<(int, int), CommandLineWindowError> {
    if length == 0 || ptr == 0 {
        Err(CommandLineWindowError::Empty)
    } else if ptr < base || saturate(ptr + length) > buffer_end {
        Err(CommandLineWindowError::OutsideBuffer)
    } else if (ptr - base) % 2 != 0 {
        Err(CommandLineWindowError::Misaligned)
    } else if saturate((ptr - base) / 2 + length / 2) > units {
        Err(CommandLineWindowError::OutOfBounds)
    } else {
        Ok(((ptr - base) / 2, (ptr - base) / 2 + length / 2))
    }
}

/// Locates the command line that a query wrote into its own buffer.
pub fn command_line_window(length: u16, ptr: usize, base: usize, buffer_end: usize, units: usize) -> (r: Result<
    (usize, usize),
    CommandLineWindowError,
>)
    ensures
        match command_line_window_of(length, ptr, base, buffer_end, units) {
            Ok((a, b)) => (r matches Ok((x, y)) && x == a && y == b),
            Err(e) => (r matches Err(f) && f == e),
        },
        r matches Ok((x, y)) ==> x <= y <= units,
{
    if length == 0 || ptr == 0 {
        return Err(CommandLineWindowError::Empty);
    }
    if ptr < base || ptr.saturating_add(length as usize) > buffer_end {
        return Err(CommandLineWindowError::OutsideBuffer);
    }
    let offset_bytes = ptr - base;
    if offset_bytes % 2 != 0 {
        return Err(CommandLineWindowError::Misaligned);
    }
    let offset = offset_bytes / 2;
    let len_units = (length as usize) / 2;
    if offset.saturating_add(len_units) > units {
        return Err(CommandLineWindowError::OutOfBounds);
    }
    Ok((offset, offset + len_units))
}

} // verus!
