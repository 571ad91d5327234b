//! How hard the models of an agent can think.
use vstd::prelude::*;
use crate::models::EffortCatalog;
use crate::text::{append_texts, opt_view, same, views};

verus! {

/// A model that an agent offers.
#[derive(Debug, Clone)]
pub struct LegacyModelEntry {
    pub model_id: String,
    pub name: String,
}

/// The model of [`LegacyModelEntry`].
#[verifier::ext_equal]
pub struct LegacyModelEntryView {
    pub model_id: Seq<char>,
    pub name: Seq<char>,
}

impl View for LegacyModelEntry {
    type V = LegacyModelEntryView;

    open spec fn view(&self) -> LegacyModelEntryView {
        LegacyModelEntryView {
            model_id: self.model_id@,
            name: self.name@,
        }
    }
}

/// The models of a session, and the one it uses.
#[derive(Debug, Clone)]
pub struct LegacySessionModelState {
    pub current_model_id: String,
    pub available_models: Vec<LegacyModelEntry>,
}

/// The model of [`LegacySessionModelState`].
#[verifier::ext_equal]
pub struct LegacySessionModelStateView {
    pub current_model_id: Seq<char>,
    pub available_models: Seq<LegacyModelEntryView>,
}

impl View for LegacySessionModelState {
    type V = LegacySessionModelStateView;

    open spec fn view(&self) -> LegacySessionModelStateView {
        LegacySessionModelStateView {
            current_model_id: self.current_model_id@,
            available_models: views(self.available_models@),
        }
    }
}

/// A value that can be selected.
#[derive(Debug, Clone)]
pub struct SessionConfigSelectOption {
    pub value: String,
    pub name: String,
}

/// The model of [`SessionConfigSelectOption`].
#[verifier::ext_equal]
pub struct SessionConfigSelectOptionView {
    pub value: Seq<char>,
    pub name: Seq<char>,
}

impl View for SessionConfigSelectOption {
    type V = SessionConfigSelectOptionView;

    open spec fn view(&self) -> SessionConfigSelectOptionView {
        SessionConfigSelectOptionView {
            value: self.value@,
            name: self.name@,
        }
    }
}

/// A group of values that can be selected.
#[derive(Debug, Clone)]
pub struct SessionConfigSelectGroup {
    pub group: String,
    pub name: String,
    pub options: Vec<SessionConfigSelectOption>,
}

/// The model of [`SessionConfigSelectGroup`].
#[verifier::ext_equal]
pub struct SessionConfigSelectGroupView {
    pub group: Seq<char>,
    pub name: Seq<char>,
    pub options: Seq<SessionConfigSelectOptionView>,
}

impl View for SessionConfigSelectGroup {
    type V = SessionConfigSelectGroupView;

    open spec fn view(&self) -> SessionConfigSelectGroupView {
        SessionConfigSelectGroupView {
            group: self.group@,
            name: self.name@,
            options: views(self.options@),
        }
    }
}

/// How a value is selected: from one list or from groups.
#[derive(Debug, Clone)]
pub enum SessionConfigSelectOptions {
    Ungrouped(Vec<SessionConfigSelectOption>),
    Grouped(Vec<SessionConfigSelectGroup>),
    Unknown,
}

/// The model of [`SessionConfigSelectOptions`].
#[verifier::ext_equal]
pub enum SelectOptionsView {
    Ungrouped(Seq<SessionConfigSelectOptionView>),
    Grouped(Seq<SessionConfigSelectGroupView>),
    Unknown,
}

impl View for SessionConfigSelectOptions {
    type V = SelectOptionsView;

    open spec fn view(&self) -> SelectOptionsView {
        match *self {
            SessionConfigSelectOptions::Ungrouped(v) => SelectOptionsView::Ungrouped(views(v@)),
            SessionConfigSelectOptions::Grouped(v) => SelectOptionsView::Grouped(views(v@)),
            SessionConfigSelectOptions::Unknown => SelectOptionsView::Unknown,
        }
    }
}

/// A choice among values.
#[derive(Debug, Clone)]
pub struct SessionConfigSelect {
    pub current_value: String,
    pub options: SessionConfigSelectOptions,
}

/// The model of [`SessionConfigSelect`].
#[verifier::ext_equal]
pub struct SessionConfigSelectView {
    pub current_value: Seq<char>,
    pub options: SelectOptionsView,
}

impl View for SessionConfigSelect {
    type V = SessionConfigSelectView;

    open spec fn view(&self) -> SessionConfigSelectView {
        SessionConfigSelectView { current_value: self.current_value@, options: self.options@ }
    }
}

/// What an option is about.
#[derive(Debug, Clone, Copy, PartialEq, Eq, Structural)]
pub enum SessionConfigOptionCategory {
    Mode,
    Model,
    ModelConfig,
    ThoughtLevel,
    Other,
}

/// An option of a session. One that is no choice among values has no `select`.
#[derive(Debug, Clone)]
pub struct SessionConfigOption {
    pub id: String,
    pub name: String,
    pub category: Option<SessionConfigOptionCategory>,
    pub select: Option<SessionConfigSelect>,
}

/// The model of [`SessionConfigOption`].
#[verifier::ext_equal]
pub struct SessionConfigOptionView {
    pub id: Seq<char>,
    pub name: Seq<char>,
    pub category: Option<SessionConfigOptionCategory>,
    pub select: Option<SessionConfigSelectView>,
}

impl View for SessionConfigOption {
    type V = SessionConfigOptionView;

    open spec fn view(&self) -> SessionConfigOptionView {
        SessionConfigOptionView {
            id: self.id@,
            name: self.name@,
            category: self.category,
            select: opt_view(self.select),
        }
    }
}

// ---------------------------------------------------------------------
// How hard the models can think
// ---------------------------------------------------------------------

/// The models whose names are `current`, or those whose names are not.
pub open spec fn ids_where(models: Seq<LegacyModelEntryView>, current: Seq<char>, is_current: bool) -> Seq<Seq<char>>
    decreases models.len(),
{
    if models.len() == 0 {
        Seq::empty()
    } else if (models.last().model_id == current) == is_current {
        ids_where(models.drop_last(), current, is_current).push(models.last().model_id)
    } else {
        ids_where(models.drop_last(), current, is_current)
    }
}

/// The models in the order in which they are tried: the current one last, for an agent may
/// not tell anything when it is given the model that it has.
pub open spec fn probe_order(m: LegacySessionModelStateView) -> Seq<Seq<char>> {
    ids_where(m.available_models, m.current_model_id, false) + ids_where(
        m.available_models,
        m.current_model_id,
        true,
    )
}

fn select_ids(models: &Vec<LegacyModelEntry>, current: &str, is_current: bool) -> (r: Vec<String>)
    ensures
        views(r@) == ids_where(views(models@), current@, is_current),
{
    let ghost all = views(models@);
    let mut out: Vec<String> = Vec::new();
    let mut i: usize = 0;
    assert(all.take(0) =~= Seq::empty());
    while i < models.len()
        invariant
            i <= models@.len(),
            all == views(models@),
            views(out@) == ids_where(all.take(i as int), current@, is_current),
        decreases models@.len() - i,
    {
        let ghost before = views(out@);
        proof {
            assert(all.take(i + 1).drop_last() =~= all.take(i as int));
            assert(all.take(i + 1).last() == models@[i as int]@);
        }
        if same(models[i].model_id.as_str(), current) == is_current {
            out.push(models[i].model_id.clone());
            assert(views(out@) =~= before.push(out@.last()@));
        }
        i += 1;
    }
    assert(all.take(i as int) =~= all);
    out
}

/// The models in the order in which they are tried.
pub fn model_ids_in_probe_order(models: &LegacySessionModelState) -> (r: Vec<String>)
    ensures
        views(r@) == probe_order(models@),
{
    let mut order = select_ids(&models.available_models, models.current_model_id.as_str(), false);
    let last = select_ids(&models.available_models, models.current_model_id.as_str(), true);
    append_texts(&mut order, &last);
    order
}

/// The names of the models.
pub open spec fn model_ids(models: Seq<LegacyModelEntryView>) -> Seq<Seq<char>> {
    Seq::new(models.len(), |i: int| models[i].model_id)
}

proof fn lemma_ids_where(models: Seq<LegacyModelEntryView>, current: Seq<char>)
    ensures
        ids_where(models, current, false).to_multiset().add(ids_where(models, current, true).to_multiset())
            == model_ids(models).to_multiset(),
    decreases models.len(),
{
    broadcast use vstd::seq_lib::group_to_multiset_ensures;

    if models.len() == 0 {
        assert(model_ids(models) =~= Seq::empty());
        assert(ids_where(models, current, false).to_multiset().add(
            ids_where(models, current, true).to_multiset(),
        ) =~= model_ids(models).to_multiset());
    } else {
        let init = models.drop_last();
        lemma_ids_where(init, current);
        assert(model_ids(models) =~= model_ids(init).push(models.last().model_id));
        assert(ids_where(models, current, false).to_multiset().add(
            ids_where(models, current, true).to_multiset(),
        ) =~= model_ids(models).to_multiset());
    }
}

proof fn lemma_ids_are(models: Seq<LegacyModelEntryView>, current: Seq<char>, is_current: bool)
    ensures
        forall|i: int|
            0 <= i < ids_where(models, current, is_current).len() ==> (#[trigger] ids_where(
                models,
                current,
                is_current,
            )[i] == current) == is_current,
    decreases models.len(),
{
    if models.len() > 0 {
        let before = ids_where(models.drop_last(), current, is_current);
        lemma_ids_are(models.drop_last(), current, is_current);
        assert forall|i: int| 0 <= i < ids_where(models, current, is_current).len() implies (
        #[trigger] ids_where(models, current, is_current)[i] == current) == is_current by {
            if i < before.len() {
                assert((before[i] == current) == is_current);
            }
        }
    }
}

/// Every model is tried as often as it is listed, and the current one after all the others.
pub proof fn law_current_model_is_tried_last(m: LegacySessionModelStateView)
    ensures
        probe_order(m).to_multiset() == model_ids(m.available_models).to_multiset(),
        forall|i: int, j: int|
            0 <= i <= j < probe_order(m).len() && #[trigger] probe_order(m)[i] == m.current_model_id
                ==> #[trigger] probe_order(m)[j] == m.current_model_id,
{
    let a = ids_where(m.available_models, m.current_model_id, false);
    let b = ids_where(m.available_models, m.current_model_id, true);
    lemma_ids_where(m.available_models, m.current_model_id);
    vstd::seq_lib::lemma_multiset_commutative(a, b);
    lemma_ids_are(m.available_models, m.current_model_id, false);
    lemma_ids_are(m.available_models, m.current_model_id, true);
    assert forall|i: int, j: int|
        0 <= i <= j < probe_order(m).len() && #[trigger] probe_order(m)[i] == m.current_model_id implies
        #[trigger] probe_order(m)[j] == m.current_model_id by {
        if i < a.len() {
            assert(a[i] == probe_order(m)[i]);
        } else {
            assert(b[j - a.len()] == probe_order(m)[j]);
        }
    }
}

/// The values that can be selected in a list.
pub open spec fn option_values(options: Seq<SessionConfigSelectOptionView>) -> Seq<Seq<char>> {
    Seq::new(options.len(), |i: int| options[i].value)
}

/// The values that can be selected in groups, one group after the other.
pub open spec fn group_values(groups: Seq<SessionConfigSelectGroupView>) -> Seq<Seq<char>>
    decreases groups.len(),
{
    if groups.len() == 0 {
        Seq::empty()
    } else {
        group_values(groups.drop_last()) + option_values(groups.last().options)
    }
}

/// All the values that can be selected.
pub open spec fn flat_values(s: SessionConfigSelectView) -> Seq<Seq<char>> {
    match s.options {
        SelectOptionsView::Ungrouped(options) => option_values(options),
        SelectOptionsView::Grouped(groups) => group_values(groups),
        SelectOptionsView::Unknown => Seq::empty(),
    }
}

fn push_values(all: &mut Vec<String>, options: &Vec<SessionConfigSelectOption>)
    ensures
        views(final(all)@) == views(old(all)@) + option_values(views(options@)),
{
    let ghost start = views(all@);
    let ghost values = option_values(views(options@));
    let mut i: usize = 0;
    while i < options.len()
        invariant
            i <= options@.len(),
            values == option_values(views(options@)),
            views(all@) == start + values.take(i as int),
        decreases options@.len() - i,
    {
        let ghost before = views(all@);
        all.push(options[i].value.clone());
        assert(views(all@) =~= before.push(values[i as int]));
        i += 1;
        assert(views(all@) =~= start + values.take(i as int));
    }
    assert(values.take(i as int) =~= values);
}

/// All the values that can be selected.
pub fn flattened_select_values(select: &SessionConfigSelect) -> (r: Vec<String>)
    ensures
        views(r@) == flat_values(select@),
{
    let mut out: Vec<String> = Vec::new();
    assert(views(out@) =~= Seq::empty());
    match &select.options {
        SessionConfigSelectOptions::Ungrouped(options) => {
            push_values(&mut out, options);
            assert(views(out@) =~= option_values(views(options@)));
        },
        SessionConfigSelectOptions::Grouped(groups) => {
            let ghost all = views(groups@);
            let mut i: usize = 0;
            assert(all.take(0) =~= Seq::empty());
            while i < groups.len()
                invariant
                    i <= groups@.len(),
                    all == views(groups@),
                    views(out@) == group_values(all.take(i as int)),
                decreases groups@.len() - i,
            {
                proof {
                    assert(all.take(i + 1).drop_last() =~= all.take(i as int));
                    assert(all.take(i + 1).last() == groups@[i as int]@);
                }
                push_values(&mut out, &groups[i].options);
                i += 1;
            }
            assert(all.take(i as int) =~= all);
        },
        SessionConfigSelectOptions::Unknown => {},
    }
    out
}

/// Whether an option says which model is used.
pub open spec fn is_model_option(o: SessionConfigOptionView) -> bool {
    o.category == Some(SessionConfigOptionCategory::Model) || o.id == "model"@ || o.id == "models"@
}

/// Whether an option says how hard the model thinks.
pub open spec fn is_effort_option(o: SessionConfigOptionView) -> bool {
    o.category == Some(SessionConfigOptionCategory::ThoughtLevel) || o.id == "effort"@ || o.id
        == "reasoning_effort"@ || o.id == "thought_level"@
}

/// The choice of the first option that says which model is used.
pub open spec fn model_select(options: Seq<SessionConfigOptionView>) -> Option<SessionConfigSelectView>
    decreases options.len(),
{
    if options.len() == 0 {
        None
    } else if is_model_option(options[0]) {
        options[0].select
    } else {
        model_select(options.drop_first())
    }
}

/// The choice of the first option that says how hard the model thinks.
pub open spec fn effort_select(options: Seq<SessionConfigOptionView>) -> Option<SessionConfigSelectView>
    decreases options.len(),
{
    if options.len() == 0 {
        None
    } else if is_effort_option(options[0]) {
        options[0].select
    } else {
        effort_select(options.drop_first())
    }
}

/// The model that is used, as the options say.
pub open spec fn current_model(options: Seq<SessionConfigOptionView>) -> Option<Seq<char>> {
    match model_select(options) {
        Some(s) => Some(s.current_value),
        None => None,
    }
}

/// How hard the model can think, as the options say.
pub open spec fn efforts_in(options: Seq<SessionConfigOptionView>) -> Seq<Seq<char>> {
    match effort_select(options) {
        Some(s) => flat_values(s),
        None => Seq::empty(),
    }
}

/// The model that is used, as the options say.
pub fn current_model_from_config_options(options: &Vec<SessionConfigOption>) -> (r: Option<String>)
    ensures
        opt_view(r) == current_model(views(options@)),
{
    let ghost all = views(options@);
    let mut i: usize = 0;
    assert(all.skip(0) =~= all);
    while i < options.len()
        invariant
            i <= options@.len(),
            all == views(options@),
            model_select(all) == model_select(all.skip(i as int)),
        decreases options@.len() - i,
    {
        let o = &options[i];
        proof {
            assert(all.skip(i as int)[0] == options@[i as int]@);
            assert(all.skip(i as int).drop_first() =~= all.skip(i + 1));
        }
        let named = same(o.id.as_str(), "model") || same(o.id.as_str(), "models");
        let of_category = match o.category {
            Some(SessionConfigOptionCategory::Model) => true,
            _ => false,
        };
        if of_category || named {
            return match &o.select {
                Some(s) => Some(s.current_value.clone()),
                None => None,
            };
        }
        i += 1;
    }
    None
}

/// How hard the model can think, as the options say.
pub fn reasoning_efforts_from_config_options(options: &Vec<SessionConfigOption>) -> (r: Vec<String>)
    ensures
        views(r@) == efforts_in(views(options@)),
{
    let ghost all = views(options@);
    let none: Vec<String> = Vec::new();
    assert(views(none@) =~= Seq::empty());
    let mut i: usize = 0;
    assert(all.skip(0) =~= all);
    while i < options.len()
        invariant
            i <= options@.len(),
            all == views(options@),
            views(none@) == Seq::<Seq<char>>::empty(),
            effort_select(all) == effort_select(all.skip(i as int)),
        decreases options@.len() - i,
    {
        let o = &options[i];
        proof {
            assert(all.skip(i as int)[0] == options@[i as int]@);
            assert(all.skip(i as int).drop_first() =~= all.skip(i + 1));
        }
        let named = same(o.id.as_str(), "effort") || same(o.id.as_str(), "reasoning_effort") || same(
            o.id.as_str(),
            "thought_level",
        );
        let of_category = match o.category {
            Some(SessionConfigOptionCategory::ThoughtLevel) => true,
            _ => false,
        };
        if of_category || named {
            return match &o.select {
                Some(s) => flattened_select_values(s),
                None => none,
            };
        }
        i += 1;
    }
    none
}

/// The models that are still to be tried, and what is known of those that were.
#[derive(Debug, Clone)]
pub struct ReasoningProbe {
    pub order: Vec<String>,
    pub at: usize,
    pub catalog: EffortCatalog,
}

/// What is to be done next when the models are tried.
#[derive(Debug, Clone)]
pub enum ReasoningAction {
    /// Have the session use this model, and wait two seconds at most for what it tells.
    SetModel(String),
    /// Go on waiting.
    Wait,
    Done,
}

/// The model of [`ReasoningAction`].
#[verifier::ext_equal]
pub enum ReasoningActionView {
    SetModel(Seq<char>),
    Wait,
    Done,
}

impl View for ReasoningAction {
    type V = ReasoningActionView;

    open spec fn view(&self) -> ReasoningActionView {
        match *self {
            ReasoningAction::SetModel(m) => ReasoningActionView::SetModel(m@),
            ReasoningAction::Wait => ReasoningActionView::Wait,
            ReasoningAction::Done => ReasoningActionView::Done,
        }
    }
}

/// What happened while the models are tried.
#[derive(Debug, Clone)]
pub enum ReasoningEvent {
    /// The session uses the model now.
    ModelSet,
    /// The session could not be given the model.
    SetFailed,
    /// The agent told its options.
    Options(Vec<SessionConfigOption>),
    /// The agent told something else.
    OtherUpdate,
    /// The time to wait is over, or the agent is gone.
    TimedOut,
}

/// Whether this ends the wait for a model.
pub open spec fn ends_wait(model: Seq<char>, event: ReasoningEvent) -> bool {
    match event {
        ReasoningEvent::ModelSet => false,
        ReasoningEvent::SetFailed => true,
        ReasoningEvent::Options(options) => current_model(views(options@)) == Some(model),
        ReasoningEvent::OtherUpdate => false,
        ReasoningEvent::TimedOut => true,
    }
}

/// What is done for the model at a place of the order.
pub open spec fn action_at(order: Seq<Seq<char>>, at: nat) -> ReasoningActionView {
    if at < order.len() {
        ReasoningActionView::SetModel(order[at as int])
    } else {
        ReasoningActionView::Done
    }
}

/// The place in the order, what is known of the efforts, and what is to be done next, once
/// something happened.
pub open spec fn probe_step(
    order: Seq<Seq<char>>,
    at: nat,
    known: Map<Seq<char>, Seq<Seq<char>>>,
    event: ReasoningEvent,
) -> (nat, Map<Seq<char>, Seq<Seq<char>>>, ReasoningActionView) {
    if !ends_wait(order[at as int], event) {
        (at, known, ReasoningActionView::Wait)
    } else {
        match event {
            ReasoningEvent::Options(options) => (
                at + 1,
                known.insert(order[at as int], efforts_in(views(options@))),
                action_at(order, at + 1),
            ),
            _ => (at + 1, known, action_at(order, at + 1)),
        }
    }
}

impl ReasoningProbe {
    /// What is to be done for the model at `at`.
    pub open spec fn next_action(self) -> ReasoningActionView {
        if self.at < self.order@.len() {
            ReasoningActionView::SetModel(self.order@[self.at as int]@)
        } else {
            ReasoningActionView::Done
        }
    }

    /// Begins to try the models; without a list of models there is nothing to try.
    pub fn begin(models: Option<&LegacySessionModelState>) -> (r: ReasoningProbe)
        ensures
            r.at == 0,
            views(r.order@) == match models {
                Some(m) => probe_order(m@),
                None => Seq::empty(),
            },
            r.catalog@ == Map::<Seq<char>, Seq<Seq<char>>>::empty(),
    {
        let order = match models {
            Some(m) => model_ids_in_probe_order(m),
            None => {
                let none: Vec<String> = Vec::new();
                assert(views(none@) =~= Seq::empty());
                none
            },
        };
        ReasoningProbe { order, at: 0, catalog: EffortCatalog::new() }
    }

    /// What is to be done first.
    pub fn first(&self) -> (r: ReasoningAction)
        ensures
            r@ == self.next_action(),
            r@ == action_at(views(self.order@), self.at as nat),
    {
        if self.at < self.order.len() {
            ReasoningAction::SetModel(self.order[self.at].clone())
        } else {
            ReasoningAction::Done
        }
    }

    /// Takes in what happened, and says what is to be done next. What the agent tells counts
    /// only if it speaks of the model that was set.
    pub fn probe_model_reasoning_efforts(&mut self, event: &ReasoningEvent) -> (r: ReasoningAction)
        requires
            old(self).at < old(self).order@.len(),
        ensures
            final(self).order@ == old(self).order@,
            ({
                let model = old(self).order@[old(self).at as int]@;
                &&& final(self).at == if ends_wait(model, *event) {
                    old(self).at + 1
                } else {
                    old(self).at as int
                }
                &&& final(self).catalog@ == match *event {
                    ReasoningEvent::Options(options) => if ends_wait(model, *event) {
                        old(self).catalog@.insert(model, efforts_in(views(options@)))
                    } else {
                        old(self).catalog@
                    },
                    _ => old(self).catalog@,
                }
                &&& r@ == if ends_wait(model, *event) {
                    final(self).next_action()
                } else {
                    ReasoningActionView::Wait
                }
            }),
            (final(self).at as nat, final(self).catalog@, r@) == probe_step(
                views(old(self).order@),
                old(self).at as nat,
                old(self).catalog@,
                *event,
            ),
    {
        let count: usize = self.order.len();
        assert(self.at < count);
        let model = self.order[self.at].clone();
        let over = match event {
            ReasoningEvent::ModelSet => false,
            ReasoningEvent::SetFailed => true,
            ReasoningEvent::Options(options) => {
                let current = current_model_from_config_options(options);
                let about_it = match &current {
                    Some(m) => same(m.as_str(), model.as_str()),
                    None => false,
                };
                if about_it {
                    self.catalog.insert(model, reasoning_efforts_from_config_options(options));
                }
                about_it
            },
            ReasoningEvent::OtherUpdate => false,
            ReasoningEvent::TimedOut => true,
        };
        if over {
            self.at += 1;
            self.first()
        } else {
            ReasoningAction::Wait
        }
    }
}

// ---------------------------------------------------------------------
// What is offered
// ---------------------------------------------------------------------

/// The efforts that are offered are those of the first option that is about the effort, by
/// its category or by one of its names.
pub proof fn law_the_first_effort_option_counts(options: Seq<SessionConfigOptionView>, k: int)
    requires
        0 <= k < options.len(),
        options[k].category == Some(SessionConfigOptionCategory::ThoughtLevel) || options[k].id == "effort"@
            || options[k].id == "reasoning_effort"@ || options[k].id == "thought_level"@,
        forall|i: int|
            0 <= i < k ==> (#[trigger] options[i]).category != Some(SessionConfigOptionCategory::ThoughtLevel)
                && options[i].id != "effort"@ && options[i].id != "reasoning_effort"@ && options[i].id
                != "thought_level"@,
    ensures
        options[k].select matches Some(s) ==> efforts_in(options) == flat_values(s),
        options[k].select is None ==> efforts_in(options).len() == 0,
    decreases k,
{
    if k > 0 {
        let rest = options.drop_first();
        assert(!is_effort_option(options[0]));
        assert(rest[k - 1] == options[k]);
        assert(forall|i: int| 0 <= i < rest.len() ==> #[trigger] rest[i] == options[i + 1]);
        law_the_first_effort_option_counts(rest, k - 1);
    }
}

/// The current model is the value of the first option that is about the model, by its
/// category or by one of its names.
pub proof fn law_the_first_model_option_counts(options: Seq<SessionConfigOptionView>, k: int)
    requires
        0 <= k < options.len(),
        options[k].category == Some(SessionConfigOptionCategory::Model) || options[k].id == "model"@ || options[k].id
            == "models"@,
        forall|i: int|
            0 <= i < k ==> (#[trigger] options[i]).category != Some(SessionConfigOptionCategory::Model)
                && options[i].id != "model"@ && options[i].id != "models"@,
    ensures
        options[k].select matches Some(s) ==> current_model(options) == Some(s.current_value),
        options[k].select is None ==> current_model(options) is None,
    decreases k,
{
    if k > 0 {
        let rest = options.drop_first();
        assert(!is_model_option(options[0]));
        assert(rest[k - 1] == options[k]);
        assert(forall|i: int| 0 <= i < rest.len() ==> #[trigger] rest[i] == options[i + 1]);
        law_the_first_model_option_counts(rest, k - 1);
    }
}

/// Where no option is about the effort nothing is offered, and where none is about the model
/// there is no current one.
pub proof fn law_other_options_offer_nothing(options: Seq<SessionConfigOptionView>)
    ensures
        (forall|i: int|
            0 <= i < options.len() ==> (#[trigger] options[i]).category != Some(
                SessionConfigOptionCategory::ThoughtLevel,
            ) && options[i].id != "effort"@ && options[i].id != "reasoning_effort"@ && options[i].id
                != "thought_level"@) ==> efforts_in(options).len() == 0,
        (forall|i: int|
            0 <= i < options.len() ==> (#[trigger] options[i]).category != Some(SessionConfigOptionCategory::Model)
                && options[i].id != "model"@ && options[i].id != "models"@) ==> current_model(options) is None,
    decreases options.len(),
{
    if options.len() > 0 {
        let rest = options.drop_first();
        assert(forall|i: int| 0 <= i < rest.len() ==> #[trigger] rest[i] == options[i + 1]);
        law_other_options_offer_nothing(rest);
    }
}

/// The values of a choice are those of all its options, in their order, whether or not they
/// are in groups.
pub proof fn law_all_values_are_offered(select: SessionConfigSelectView, value: Seq<char>)
    ensures
        select.options matches SelectOptionsView::Ungrouped(options) ==> flat_values(select).len() == options.len()
            && forall|i: int| 0 <= i < options.len() ==> #[trigger] flat_values(select)[i] == options[i].value,
        select.options matches SelectOptionsView::Grouped(groups) ==> (flat_values(select).contains(value)
            <==> exists|g: int, i: int|
            0 <= g < groups.len() && 0 <= i < (#[trigger] groups[g]).options.len() && (
            #[trigger] groups[g].options[i]).value == value),
        select.options is Unknown ==> flat_values(select).len() == 0,
{
    if let SelectOptionsView::Grouped(groups) = select.options {
        lemma_group_values(groups, value);
    }
}

proof fn lemma_group_values(groups: Seq<SessionConfigSelectGroupView>, value: Seq<char>)
    ensures
        group_values(groups).contains(value) <==> exists|g: int, i: int|
            0 <= g < groups.len() && 0 <= i < (#[trigger] groups[g]).options.len() && (
            #[trigger] groups[g].options[i]).value == value,
    decreases groups.len(),
{
    if groups.len() > 0 {
        let init = groups.drop_last();
        let n = groups.len() - 1;
        lemma_group_values(init, value);
        let before = group_values(init);
        let last = option_values(groups.last().options);
        let all = group_values(groups);
        assert(groups[n] == groups.last());
        if exists|g: int, i: int|
            0 <= g < groups.len() && 0 <= i < (#[trigger] groups[g]).options.len() && (
            #[trigger] groups[g].options[i]).value == value {
            let (g, i) = choose|g: int, i: int|
                0 <= g < groups.len() && 0 <= i < (#[trigger] groups[g]).options.len() && (
                #[trigger] groups[g].options[i]).value == value;
            if g < n {
                assert(init[g] == groups[g]);
                assert(init[g].options[i].value == value);
                assert(before.contains(value));
            } else {
                assert(last[i] == value);
                assert(all[before.len() + i] == value);
            }
        }
        if before.contains(value) {
            let k = before.index_of(value);
            assert(all[k] == value);
            let (g, i) = choose|g: int, i: int|
                0 <= g < init.len() && 0 <= i < (#[trigger] init[g]).options.len() && (
                #[trigger] init[g].options[i]).value == value;
            assert(groups[g] == init[g]);
            assert(groups[g].options[i].value == value);
        }
        if all.contains(value) && !before.contains(value) {
            let k = all.index_of(value);
            if k < before.len() {
                assert(before[k] == value);
            } else {
                assert(last[k - before.len()] == value);
                assert(groups[n].options[k - before.len()].value == value);
            }
        }
    }
}

/// The wait for a model ends when the options show it as the current one, when it could not
/// be set, and when the time is up; nothing else ends it.
pub proof fn law_the_wait_is_for_the_model_itself(model: Seq<char>, event: ReasoningEvent)
    ensures
        event is SetFailed || event is TimedOut ==> ends_wait(model, event),
        event is ModelSet || event is OtherUpdate ==> !ends_wait(model, event),
        event matches ReasoningEvent::Options(options) ==> (ends_wait(model, event) <==> current_model(views(options@))
            == Some(model)),
{
}

/// The models are tried one after the other: the one at hand until the wait for it is over,
/// then the one behind it, and after the last one there is nothing left to do.
pub proof fn law_each_model_is_tried_in_turn(
    order: Seq<Seq<char>>,
    at: nat,
    known: Map<Seq<char>, Seq<Seq<char>>>,
    event: ReasoningEvent,
)
    requires
        at < order.len(),
    ensures
        ({
            let next = probe_step(order, at, known, event);
            &&& event is ModelSet || event is OtherUpdate ==> next == (at, known, ReasoningActionView::Wait)
            &&& event is SetFailed || event is TimedOut ==> next.0 == at + 1 && next.1 == known
            &&& event matches ReasoningEvent::Options(options) ==> (next.0 == at + 1 <==> current_model(
                views(options@),
            ) == Some(order[at as int]))
            &&& next.0 == at || next.0 == at + 1
            &&& next.0 == at ==> next.2 is Wait
            &&& next.0 == at + 1 && at + 1 < order.len() ==> next.2 == ReasoningActionView::SetModel(
                order[at as int + 1],
            )
            &&& next.0 == at + 1 && at + 1 == order.len() ==> next.2 is Done
        }),
        action_at(order, at) == ReasoningActionView::SetModel(order[at as int]),
        action_at(order, order.len()) is Done,
{
}

/// What is learned is how hard the model at hand can think, from options that speak of it,
/// and nothing of any other model.
pub proof fn law_only_the_model_at_hand_is_learned(
    order: Seq<Seq<char>>,
    at: nat,
    known: Map<Seq<char>, Seq<Seq<char>>>,
    event: ReasoningEvent,
    model: Seq<char>,
)
    requires
        at < order.len(),
    ensures
        ({
            let learned = probe_step(order, at, known, event).1;
            &&& event matches ReasoningEvent::Options(options) ==> (current_model(views(options@)) == Some(
                order[at as int],
            ) ==> learned.dom().contains(order[at as int]) && learned[order[at as int]] == efforts_in(views(options@)))
            &&& event matches ReasoningEvent::Options(options) ==> (current_model(views(options@)) != Some(
                order[at as int],
            ) ==> learned == known)
            &&& model != order[at as int] ==> learned.dom().contains(model) == known.dom().contains(model)
                && learned[model] == known[model]
        }),
{
}

/// A trial of the models goes on with the one at which it stands, and is done behind the
/// last one.
pub proof fn law_a_trial_goes_on_where_it_stands(probe: ReasoningProbe)
    ensures
        probe.at < probe.order@.len() ==> probe.next_action() == ReasoningActionView::SetModel(
            probe.order@[probe.at as int]@,
        ),
        probe.at >= probe.order@.len() ==> probe.next_action() is Done,
{
}

} // verus!
