use vstd::prelude::*;

use crate::actions::download::{DownloadAction, SubmissionView};
use crate::actions::exec::{output_key, ExecAction};
use crate::clients::qbittorrent::QBittorrent;
use crate::digits::u32_str;
use crate::feeds::feed_model::Item;
use crate::filters::{filter_matches, Filters};
use crate::hconf_parser::model::{client_type_name, clone_strings, ClientType, FeedAction, HConf, HConfParseError, Task};
use crate::task::task_schedule::{interval_seconds, schedule_of, schedule_ok, TaskSchedule};
use crate::vars::{expand_spec, expand_template, VarContext};

verus! {

/// One configured download action: the backend it names and the
/// destination-path template, before expansion.
pub struct DownloadTemplate {
    pub client: String,
    pub save_path: String,
}

/// Whether an item passes the task's filter: with no filter everything
/// passes; with one, the item needs a title and a readable size that the
/// policy accepts.
pub open spec fn item_passes(item: Item, filter: Option<Filters>) -> bool {
    match filter {
        None => true,
        Some(f) => match (item.title, item.size) {
            (Some(t), Some(s)) => match u32_str(s@) {
                Some(size) => filter_matches(f, t@, size),
                None => false,
            },
            _ => false,
        },
    }
}

/// The display name an item is submitted under: its title, or empty.
pub open spec fn display_title(item: Item) -> Seq<char> {
    match item.title {
        Some(t) => t@,
        None => Seq::empty(),
    }
}

/// The submissions one passing item yields: one per download template
/// whose path template expands, in template order.
pub open spec fn item_plan(
    link: Seq<char>,
    title: Seq<char>,
    dls: Seq<DownloadTemplate>,
    vars: Map<Seq<char>, Seq<char>>,
) -> Seq<SubmissionView>
    decreases dls.len(),
{
    if dls.len() == 0 {
        Seq::empty()
    } else {
        let rest = item_plan(link, title, dls.drop_first(), vars);
        match expand_spec(dls[0].save_path@, vars) {
            Ok(p) => seq![
                SubmissionView {
                    client: dls[0].client@,
                    torrent_link: link,
                    save_path: p,
                    title: title,
                },
            ] + rest,
            Err(_) => rest,
        }
    }
}

/// The whole cycle's submissions, item-major in feed order: an item
/// without a link, or one the filter turns away, yields none.
pub open spec fn plan_spec(
    items: Seq<Item>,
    dls: Seq<DownloadTemplate>,
    filter: Option<Filters>,
    vars: Map<Seq<char>, Seq<char>>,
) -> Seq<SubmissionView>
    decreases items.len(),
{
    if items.len() == 0 {
        Seq::empty()
    } else {
        let rest = plan_spec(items.drop_first(), dls, filter, vars);
        match items[0].link {
            Some(l) => if item_passes(items[0], filter) {
                item_plan(l@, display_title(items[0]), dls, vars) + rest
            } else {
                rest
            },
            None => rest,
        }
    }
}

/// The planned submissions as the contracts see them.
pub open spec fn plan_views(p: Seq<DownloadAction>) -> Seq<SubmissionView> {
    p.map_values(|a: DownloadAction| a@)
}

proof fn lemma_item_plan_fields(
    link: Seq<char>,
    title: Seq<char>,
    dls: Seq<DownloadTemplate>,
    vars: Map<Seq<char>, Seq<char>>,
    k: int,
)
    requires
        0 <= k < item_plan(link, title, dls, vars).len(),
    ensures
        item_plan(link, title, dls, vars)[k].torrent_link == link,
        item_plan(link, title, dls, vars)[k].title == title,
    decreases dls.len(),
{
    if dls.len() > 0 {
        match expand_spec(dls[0].save_path@, vars) {
            Ok(_) => {
                if k > 0 {
                    lemma_item_plan_fields(link, title, dls.drop_first(), vars, k - 1);
                }
            },
            Err(_) => {
                lemma_item_plan_fields(link, title, dls.drop_first(), vars, k);
            },
        }
    }
}

/// Law: the plan submits only items the filter lets through. Every planned
/// submission carries the link and title of some feed item that has a link
/// and passes the task's filter.
pub proof fn lemma_plan_is_filtered(
    items: Seq<Item>,
    dls: Seq<DownloadTemplate>,
    filter: Option<Filters>,
    vars: Map<Seq<char>, Seq<char>>,
    k: int,
)
    requires
        0 <= k < plan_spec(items, dls, filter, vars).len(),
    ensures
        exists|i: int|
            {
                &&& 0 <= i < items.len()
                &&& #[trigger] item_passes(items[i], filter)
                &&& items[i].link matches Some(l) && plan_spec(items, dls, filter, vars)[k].torrent_link
                    == l@ && plan_spec(items, dls, filter, vars)[k].title == display_title(items[i])
            },
    decreases items.len(),
{
    if items.len() > 0 {
        let plan = plan_spec(items, dls, filter, vars);
        let rest = plan_spec(items.drop_first(), dls, filter, vars);
        match items[0].link {
            Some(l) => {
                if item_passes(items[0], filter) {
                    let head = item_plan(l@, display_title(items[0]), dls, vars);
                    if k < head.len() {
                        lemma_item_plan_fields(l@, display_title(items[0]), dls, vars, k);
                        assert((head + rest)[k] == head[k]);
                        assert(item_passes(items[0], filter));
                        assert(items[0].link matches Some(l0) && plan[k].torrent_link == l0@
                            && plan[k].title == display_title(items[0]));
                    } else {
                        lemma_plan_is_filtered(items.drop_first(), dls, filter, vars, k - head.len());
                        let i0 = choose|i0: int|
                            {
                                &&& 0 <= i0 < items.drop_first().len()
                                &&& #[trigger] item_passes(items.drop_first()[i0], filter)
                                &&& items.drop_first()[i0].link matches Some(l1) && rest[k
                                    - head.len()].torrent_link == l1@ && rest[k - head.len()].title
                                    == display_title(items.drop_first()[i0])
                            };
                        assert(items.drop_first()[i0] == items[i0 + 1]);
                        assert((head + rest)[k] == rest[k - head.len()]);
                        assert(item_passes(items[i0 + 1], filter));
                    }
                } else {
                    lemma_plan_is_filtered(items.drop_first(), dls, filter, vars, k);
                    let i0 = choose|i0: int|
                        {
                            &&& 0 <= i0 < items.drop_first().len()
                            &&& #[trigger] item_passes(items.drop_first()[i0], filter)
                            &&& items.drop_first()[i0].link matches Some(l1) && rest[k].torrent_link
                                == l1@ && rest[k].title == display_title(items.drop_first()[i0])
                        };
                    assert(items.drop_first()[i0] == items[i0 + 1]);
                    assert(item_passes(items[i0 + 1], filter));
                }
            },
            None => {
                lemma_plan_is_filtered(items.drop_first(), dls, filter, vars, k);
                let i0 = choose|i0: int|
                    {
                        &&& 0 <= i0 < items.drop_first().len()
                        &&& #[trigger] item_passes(items.drop_first()[i0], filter)
                        &&& items.drop_first()[i0].link matches Some(l1) && rest[k].torrent_link
                            == l1@ && rest[k].title == display_title(items.drop_first()[i0])
                    };
                assert(items.drop_first()[i0] == items[i0 + 1]);
                assert(item_passes(items[i0 + 1], filter));
            },
        }
    }
}

fn passes_exec(item: &Item, filter: &Option<Filters>) -> (r: bool)
    ensures
        r == item_passes(*item, *filter),
{
    match filter {
        None => true,
        Some(f) => match (&item.title, &item.size) {
            (Some(t), Some(s)) => match crate::digits::parse_u32(s.as_str()) {
                Some(size) => f.is_match(t.as_str(), size),
                None => false,
            },
            _ => false,
        },
    }
}

fn clone_title(item: &Item) -> (r: String)
    ensures
        r@ == display_title(*item),
{
    match &item.title {
        Some(t) => t.clone(),
        None => String::new(),
    }
}

fn item_plan_exec(
    link: &String,
    title: &String,
    dls: &Vec<DownloadTemplate>,
    di: usize,
    vars: &VarContext,
) -> (r: Vec<DownloadAction>)
    requires
        di <= dls.len(),
    ensures
        plan_views(r@) == item_plan(link@, title@, dls@.skip(di as int), vars@),
    decreases dls.len() - di,
{
    if di >= dls.len() {
        let r: Vec<DownloadAction> = Vec::new();
        proof {
            assert(dls@.skip(di as int) =~= Seq::<DownloadTemplate>::empty());
            assert(plan_views(r@) =~= Seq::<SubmissionView>::empty());
        }
        r
    } else {
        let ghost tail = dls@.skip(di as int);
        proof {
            assert(tail[0] == dls@[di as int]);
            assert(tail.drop_first() =~= dls@.skip(di as int + 1));
        }
        let mut rest = item_plan_exec(link, title, dls, di + 1, vars);
        let ghost rest_snap = rest@;
        match expand_template(dls[di].save_path.as_str(), vars) {
            Ok(p) => {
                let sub = DownloadAction {
                    client: dls[di].client.clone(),
                    torrent_link: link.clone(),
                    save_path: p,
                    title: title.clone(),
                };
                let ghost subv = sub@;
                rest.insert(0, sub);
                proof {
                    assert(plan_views(rest@) =~= seq![subv] + plan_views(rest_snap));
                }
                rest
            },
            Err(_) => rest,
        }
    }
}

fn plan_from(
    items: &Vec<Item>,
    ii: usize,
    dls: &Vec<DownloadTemplate>,
    filter: &Option<Filters>,
    vars: &VarContext,
) -> (r: Vec<DownloadAction>)
    requires
        ii <= items.len(),
    ensures
        plan_views(r@) == plan_spec(items@.skip(ii as int), dls@, *filter, vars@),
    decreases items.len() - ii,
{
    if ii >= items.len() {
        let r: Vec<DownloadAction> = Vec::new();
        proof {
            assert(items@.skip(ii as int) =~= Seq::<Item>::empty());
            assert(plan_views(r@) =~= Seq::<SubmissionView>::empty());
        }
        r
    } else {
        let ghost tail = items@.skip(ii as int);
        proof {
            assert(tail[0] == items@[ii as int]);
            assert(tail.drop_first() =~= items@.skip(ii as int + 1));
        }
        let mut rest = plan_from(items, ii + 1, dls, filter, vars);
        let item = &items[ii];
        match &item.link {
            Some(l) => {
                if passes_exec(item, filter) {
                    let title = clone_title(item);
                    let mut out = item_plan_exec(l, &title, dls, 0, vars);
                    let ghost head_snap = out@;
                    let ghost rest_snap = rest@;
                    proof {
                        assert(dls@.skip(0) =~= dls@);
                    }
                    out.append(&mut rest);
                    proof {
                        assert(plan_views(out@) =~= plan_views(head_snap) + plan_views(rest_snap));
                    }
                    out
                } else {
                    rest
                }
            },
            None => rest,
        }
    }
}

/// Plans one cycle's submissions from the fetched items, the download
/// templates, the optional filter, and the cycle's variable context.
pub fn plan_submissions(
    items: &Vec<Item>,
    dls: &Vec<DownloadTemplate>,
    filter: &Option<Filters>,
    vars: &VarContext,
) -> (r: Vec<DownloadAction>)
    ensures
        plan_views(r@) == plan_spec(items@, dls@, *filter, vars@),
{
    proof {
        assert(items@.skip(0) =~= items@);
    }
    plan_from(items, 0, dls, filter, vars)
}

/// The one instruction a task's loop performs next.
pub enum CycleStep {
    RunExec { command: String, args: Vec<String>, name: String },
    FetchFeed { url: String },
    Submit { action: DownloadAction },
    Sleep { seconds: u64 },
}

/// What the loop reports back: the outcome of the instruction it was
/// handed.
pub enum CycleEvent {
    ExecDone { output: Option<String> },
    FeedDone { items: Option<Vec<Item>> },
    SubmitDone { ok: bool },
    Woke,
}

/// Where a task's cycle stands; the two phases that walk a list carry
/// their position.
#[derive(Clone, Copy, PartialEq, Eq, Structural, Debug)]
pub enum CycleState {
    RunningExec { idx: usize },
    FetchingFeed,
    Submitting { idx: usize },
    Sleeping,
}

/// One task's execution loop as a state machine: the host performs each
/// instruction (subprocess, fetch, submission, sleep) and reports the
/// outcome; every decision in between is made here.
pub struct TaskCycle {
    pub name: String,
    pub schedule: TaskSchedule,
    pub feed_url: String,
    pub filter: Option<Filters>,
    pub execs: Vec<ExecAction>,
    pub downloads: Vec<DownloadTemplate>,
    pub state: CycleState,
    pub vars: VarContext,
    pub plan: Vec<DownloadAction>,
}

/// Which event answers which state's instruction.
pub open spec fn event_fits(state: CycleState, ev: CycleEvent) -> bool {
    match (state, ev) {
        (CycleState::RunningExec { .. }, CycleEvent::ExecDone { .. }) => true,
        (CycleState::FetchingFeed, CycleEvent::FeedDone { .. }) => true,
        (CycleState::Submitting { .. }, CycleEvent::SubmitDone { .. }) => true,
        (CycleState::Sleeping, CycleEvent::Woke) => true,
        _ => false,
    }
}

/// The machine's transition relation: how one consumed event takes the
/// cycle from `pre` to `post`. Configuration never changes; the exec phase
/// binds each captured output and advances; the feed outcome either plans
/// the cycle's submissions from the context as the exec phase left it or
/// skips straight to sleep; every submission outcome, success or failure,
/// advances the same way; waking empties the context and plan and starts
/// the next cycle.
pub open spec fn step_rel(pre: TaskCycle, ev: CycleEvent, post: TaskCycle) -> bool {
    &&& post.name == pre.name
    &&& post.schedule == pre.schedule
    &&& post.feed_url == pre.feed_url
    &&& post.filter == pre.filter
    &&& post.execs == pre.execs
    &&& post.downloads == pre.downloads
    &&& match (pre.state, ev) {
        (CycleState::RunningExec { idx }, CycleEvent::ExecDone { output }) => {
            &&& match output {
                Some(o) => post.vars@ == pre.vars@.insert(
                    output_key(pre.execs[idx as int].output_as@),
                    o@,
                ),
                None => post.vars == pre.vars,
            }
            &&& post.plan == pre.plan
            &&& post.state == if idx + 1 < pre.execs.len() {
                CycleState::RunningExec { idx: (idx + 1) as usize }
            } else {
                CycleState::FetchingFeed
            }
        },
        (CycleState::FetchingFeed, CycleEvent::FeedDone { items }) => {
            &&& post.vars == pre.vars
            &&& match items {
                Some(list) => {
                    &&& plan_views(post.plan@) == plan_spec(
                        list@,
                        pre.downloads@,
                        pre.filter,
                        pre.vars@,
                    )
                    &&& post.state == if plan_spec(list@, pre.downloads@, pre.filter, pre.vars@).len()
                        > 0 {
                        CycleState::Submitting { idx: 0 }
                    } else {
                        CycleState::Sleeping
                    }
                },
                None => post.plan == pre.plan && post.state == CycleState::Sleeping,
            }
        },
        (CycleState::Submitting { idx }, CycleEvent::SubmitDone { .. }) => {
            &&& post.vars == pre.vars
            &&& post.plan == pre.plan
            &&& post.state == if idx + 1 < pre.plan.len() {
                CycleState::Submitting { idx: (idx + 1) as usize }
            } else {
                CycleState::Sleeping
            }
        },
        (CycleState::Sleeping, CycleEvent::Woke) => {
            &&& post.vars@ == Map::<Seq<char>, Seq<char>>::empty()
            &&& post.plan@ == Seq::<DownloadAction>::empty()
            &&& post.state == TaskCycle::start_state(pre.execs@)
        },
        _ => false,
    }
}

/// How the instruction a loop is handed relates to its cycle's state.
pub open spec fn instr_matches(c: TaskCycle, r: CycleStep) -> bool {
    match (c.state, r) {
        (CycleState::RunningExec { idx }, CycleStep::RunExec { command, args, name }) => {
            &&& command@ == c.execs[idx as int].command@
            &&& args@ == c.execs[idx as int].args@
            &&& name@ == c.execs[idx as int].output_as@
        },
        (CycleState::FetchingFeed, CycleStep::FetchFeed { url }) => url@ == c.feed_url@,
        (CycleState::Submitting { idx }, CycleStep::Submit { action }) => action == c.plan[
            idx as int
        ],
        (CycleState::Sleeping, CycleStep::Sleep { seconds }) => seconds == interval_seconds(
            c.schedule.schedule,
        ),
        _ => false,
    }
}

impl TaskCycle {
    /// Positions stay inside the lists they walk.
    pub open spec fn wf(self) -> bool {
        match self.state {
            CycleState::RunningExec { idx } => idx < self.execs.len(),
            CycleState::Submitting { idx } => idx < self.plan.len(),
            _ => true,
        }
    }

    /// The state a fresh cycle starts in: the first exec action when one
    /// exists, else the feed fetch. Exec actions therefore always run, and
    /// their outputs are bound, before any submission of the cycle.
    pub open spec fn start_state(execs: Seq<ExecAction>) -> CycleState {
        if execs.len() > 0 {
            CycleState::RunningExec { idx: 0 }
        } else {
            CycleState::FetchingFeed
        }
    }

    pub fn new(
        name: String,
        schedule: TaskSchedule,
        feed_url: String,
        filter: Option<Filters>,
        execs: Vec<ExecAction>,
        downloads: Vec<DownloadTemplate>,
    ) -> (r: TaskCycle)
        ensures
            r.name == name,
            r.schedule == schedule,
            r.feed_url == feed_url,
            r.filter == filter,
            r.execs == execs,
            r.downloads == downloads,
            r.state == TaskCycle::start_state(execs@),
            r.vars@ == Map::<Seq<char>, Seq<char>>::empty(),
            r.plan@ == Seq::<DownloadAction>::empty(),
            r.wf(),
    {
        let state = if execs.len() > 0 {
            CycleState::RunningExec { idx: 0 }
        } else {
            CycleState::FetchingFeed
        };
        TaskCycle {
            name,
            schedule,
            feed_url,
            filter,
            execs,
            downloads,
            state,
            vars: VarContext::new(),
            plan: Vec::new(),
        }
    }

    /// Hands the loop the instruction the current state waits on.
    pub fn instr(&self) -> (r: CycleStep)
        requires
            self.wf(),
        ensures
            instr_matches(*self, r),
    {
        match self.state {
            CycleState::RunningExec { idx } => {
                let a = &self.execs[idx];
                CycleStep::RunExec {
                    command: a.command.clone(),
                    args: clone_strings(&a.args),
                    name: a.output_as.clone(),
                }
            },
            CycleState::FetchingFeed => CycleStep::FetchFeed { url: self.feed_url.clone() },
            CycleState::Submitting { idx } => CycleStep::Submit { action: self.plan[idx].clone() },
            CycleState::Sleeping => CycleStep::Sleep { seconds: self.schedule.to_seconds() },
        }
    }

    /// Consumes the outcome of the outstanding instruction and moves the
    /// cycle on, exactly as `step_rel` describes.
    pub fn step(&mut self, ev: CycleEvent)
        requires
            old(self).wf(),
            event_fits(old(self).state, ev),
        ensures
            final(self).wf(),
            step_rel(*old(self), ev, *final(self)),
    {
        let st = self.state;
        match (st, ev) {
            (CycleState::RunningExec { idx }, CycleEvent::ExecDone { output }) => {
                if let Some(o) = output {
                    let key = self.execs[idx].output_var();
                    self.vars.declare(key, o);
                }
                if idx + 1 < self.execs.len() {
                    self.state = CycleState::RunningExec { idx: idx + 1 };
                } else {
                    self.state = CycleState::FetchingFeed;
                }
            },
            (CycleState::FetchingFeed, CycleEvent::FeedDone { items }) => {
                match items {
                    Some(list) => {
                        let plan = plan_submissions(&list, &self.downloads, &self.filter, &self.vars);
                        self.plan = plan;
                        if self.plan.len() > 0 {
                            self.state = CycleState::Submitting { idx: 0 };
                        } else {
                            self.state = CycleState::Sleeping;
                        }
                    },
                    None => {
                        self.state = CycleState::Sleeping;
                    },
                }
            },
            (CycleState::Submitting { idx }, CycleEvent::SubmitDone { .. }) => {
                if idx + 1 < self.plan.len() {
                    self.state = CycleState::Submitting { idx: idx + 1 };
                } else {
                    self.state = CycleState::Sleeping;
                }
            },
            (CycleState::Sleeping, CycleEvent::Woke) => {
                self.vars = VarContext::new();
                self.plan = Vec::new();
                self.state = if self.execs.len() > 0 {
                    CycleState::RunningExec { idx: 0 }
                } else {
                    CycleState::FetchingFeed
                };
            },
            _ => {
                assert(false);
            },
        }
    }
}

/// Law: a cycle's submissions are independent of one another. Whatever one
/// submission reports, success or failure, the cycle continues in the very
/// same state, so every remaining planned item is still attempted.
pub proof fn lemma_submit_outcome_ignored(pre: TaskCycle, post_ok: TaskCycle, post_err: TaskCycle)
    requires
        pre.state is Submitting,
        step_rel(pre, CycleEvent::SubmitDone { ok: true }, post_ok),
        step_rel(pre, CycleEvent::SubmitDone { ok: false }, post_err),
    ensures
        post_ok == post_err,
{
}

/// Law: exec actions strictly precede submissions in a cycle. The machine
/// only enters the submitting phase out of the feed fetch or an earlier
/// submission, and from the exec phase it can only go on running exec
/// actions or fetch the feed.
pub proof fn lemma_exec_precedes_submit(pre: TaskCycle, ev: CycleEvent, post: TaskCycle)
    requires
        step_rel(pre, ev, post),
    ensures
        post.state is Submitting ==> pre.state is FetchingFeed || pre.state is Submitting,
        pre.state is RunningExec ==> post.state is RunningExec || post.state is FetchingFeed,
{
}

/// Law: the cycle's whole plan, and with it every destination path, is
/// computed from the variable context exactly as the completed exec phase
/// left it.
pub proof fn lemma_plan_from_context(pre: TaskCycle, items: Vec<Item>, post: TaskCycle)
    requires
        step_rel(pre, CycleEvent::FeedDone { items: Some(items) }, post),
    ensures
        plan_views(post.plan@) == plan_spec(items@, pre.downloads@, pre.filter, pre.vars@),
{
}

/// The whole program: one parsed configuration, from which the backend and
/// each task's loop are prepared.
pub struct TaskPipeline {
    pub task_config: HConf,
}

impl TaskPipeline {
    pub fn new(task_config: HConf) -> (r: TaskPipeline)
        ensures
            r.task_config == task_config,
    {
        TaskPipeline { task_config }
    }

    /// Resolves the configured backend: only the qBittorrent protocol is
    /// supported, and any other configured type fails fast at startup.
    /// The returned value still awaits its authentication call.
    pub fn prepare_torr_client(&self) -> (r: Option<QBittorrent>)
        ensures
            r is Some <==> self.task_config.torrent_client.client_type is QBittorrent,
            r matches Some(c) ==> {
                &&& c.id@ == self.task_config.torrent_client.id@
                &&& c.client_type@ == client_type_name(self.task_config.torrent_client.client_type)
                &&& c.url@ == self.task_config.torrent_client.url@
                &&& c.username@ == self.task_config.torrent_client.username@
                &&& c.password@ == self.task_config.torrent_client.password@
            },
    {
        let tc = &self.task_config.torrent_client;
        match tc.client_type {
            ClientType::QBittorrent => {
                let tag = tc.client_type.name();
                Some(
                    QBittorrent::new(
                        tc.id.as_str(),
                        tag.as_str(),
                        tc.url.as_str(),
                        tc.username.as_str(),
                        tc.password.as_str(),
                    ),
                )
            },
            _ => None,
        }
    }
}

/// The exec actions a task declares, with the name each output is bound
/// under, in declaration order.
pub open spec fn execs_of(actions: Seq<(String, FeedAction)>) -> Seq<
    (Seq<char>, Seq<Seq<char>>, Seq<char>),
>
    decreases actions.len(),
{
    if actions.len() == 0 {
        Seq::empty()
    } else {
        let rest = execs_of(actions.drop_first());
        match actions[0].1 {
            FeedAction::Exec { command, args } => seq![(command@, args.deep_view(), actions[0].0@)]
                + rest,
            _ => rest,
        }
    }
}

/// The download actions a task declares, in declaration order.
pub open spec fn downloads_of(actions: Seq<(String, FeedAction)>) -> Seq<(Seq<char>, Seq<char>)>
    decreases actions.len(),
{
    if actions.len() == 0 {
        Seq::empty()
    } else {
        let rest = downloads_of(actions.drop_first());
        match actions[0].1 {
            FeedAction::Download { client, save_path } => seq![(client@, save_path@)] + rest,
            _ => rest,
        }
    }
}

pub open spec fn exec_views(execs: Seq<ExecAction>) -> Seq<(Seq<char>, Seq<Seq<char>>, Seq<char>)> {
    execs.map_values(|a: ExecAction| (a.command@, a.args.deep_view(), a.output_as@))
}

pub open spec fn download_views(dls: Seq<DownloadTemplate>) -> Seq<(Seq<char>, Seq<char>)> {
    dls.map_values(|d: DownloadTemplate| (d.client@, d.save_path@))
}

fn split_actions(actions: &Vec<(String, FeedAction)>, i: usize) -> (r: (
    Vec<ExecAction>,
    Vec<DownloadTemplate>,
))
    requires
        i <= actions.len(),
    ensures
        exec_views(r.0@) == execs_of(actions@.skip(i as int)),
        download_views(r.1@) == downloads_of(actions@.skip(i as int)),
    decreases actions.len() - i,
{
    if i >= actions.len() {
        let r: (Vec<ExecAction>, Vec<DownloadTemplate>) = (Vec::new(), Vec::new());
        proof {
            assert(actions@.skip(i as int) =~= Seq::<(String, FeedAction)>::empty());
            assert(exec_views(r.0@) =~= Seq::<(Seq<char>, Seq<Seq<char>>, Seq<char>)>::empty());
            assert(download_views(r.1@) =~= Seq::<(Seq<char>, Seq<char>)>::empty());
        }
        r
    } else {
        let ghost tail = actions@.skip(i as int);
        proof {
            assert(tail[0] == actions@[i as int]);
            assert(tail.drop_first() =~= actions@.skip(i as int + 1));
        }
        let (mut es, mut ds) = split_actions(actions, i + 1);
        let ghost es_snap = es@;
        let ghost ds_snap = ds@;
        match &actions[i].1 {
            FeedAction::Exec { command, args } => {
                let ea = ExecAction {
                    command: command.clone(),
                    args: clone_strings(args),
                    output_as: actions[i].0.clone(),
                };
                let ghost eav = (ea.command@, ea.args.deep_view(), ea.output_as@);
                es.insert(0, ea);
                proof {
                    assert(exec_views(es@) =~= seq![eav] + exec_views(es_snap));
                }
            },
            FeedAction::Download { client, save_path } => {
                let dt = DownloadTemplate {
                    client: client.clone(),
                    save_path: save_path.clone(),
                };
                let ghost dtv = (dt.client@, dt.save_path@);
                ds.insert(0, dt);
                proof {
                    assert(download_views(ds@) =~= seq![dtv] + download_views(ds_snap));
                }
            },
        }
        (es, ds)
    }
}

/// A task's static configuration is sound when its schedule string parses
/// and, if it has a filter, both size bounds are digit strings.
pub open spec fn task_config_ok(task: Task) -> bool {
    &&& schedule_ok(task.schedule@)
    &&& match task.rss_feed.filter {
        Some(f) => u32_str(f.min_size@) is Some && u32_str(f.max_size@) is Some,
        None => true,
    }
}

/// Builds one task's cycle machine from its configuration: parses the
/// schedule, checks the filter's size bounds, and splits the declared
/// actions into the exec phase and the download templates, keeping
/// declaration order. Fails exactly on an unsound configuration, before
/// the task's loop ever starts.
pub fn build_cycle(name: &String, task: &Task) -> (r: Result<TaskCycle, HConfParseError>)
    ensures
        r is Ok <==> task_config_ok(*task),
        r matches Ok(c) ==> {
            &&& c.name@ == name@
            &&& c.schedule.schedule == schedule_of(task.schedule@)
            &&& c.feed_url@ == task.rss_feed.url@
            &&& match task.rss_feed.filter {
                Some(f) => c.filter matches Some(fl) && u32_str(f.min_size@) == Some(fl.min_size)
                    && u32_str(f.max_size@) == Some(fl.max_size) && fl.accept@ == f.accept@
                    && fl.exclude@ == f.exclude@,
                None => c.filter is None,
            }
            &&& exec_views(c.execs@) == execs_of(task.actions@)
            &&& download_views(c.downloads@) == downloads_of(task.actions@)
            &&& c.state == TaskCycle::start_state(c.execs@)
            &&& c.vars@ == Map::<Seq<char>, Seq<char>>::empty()
            &&& c.plan@ == Seq::<DownloadAction>::empty()
            &&& c.wf()
        },
{
    let schedule = match TaskSchedule::parse(task.schedule.as_str()) {
        Ok(s) => s,
        Err(e) => {
            return Err(HConfParseError::ParseError(e.0));
        },
    };
    let filter = match &task.rss_feed.filter {
        Some(f) => match f.to_filters() {
            Some(fl) => Some(fl),
            None => {
                return Err(HConfParseError::ParseError(String::from_str("invalid filter size bounds")));
            },
        },
        None => None,
    };
    let (execs, downloads) = split_actions(&task.actions, 0);
    proof {
        assert(task.actions@.skip(0) =~= task.actions@);
    }
    Ok(
        TaskCycle::new(
            name.clone(),
            schedule,
            task.rss_feed.url.clone(),
            filter,
            execs,
            downloads,
        ),
    )
}

} // verus!
