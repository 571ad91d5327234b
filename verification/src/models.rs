//! Which models an agent offers, and how much they can take in.
use vstd::prelude::*;
use crate::json::{
    field, json_parsed, json_text, law_object_holds_its_entries, lemma_lookup_put, number_of, object_of, put,
    text_array, text_field, text_in, u64_in, Json, JsonView,
};
use crate::text::{has_prefix, has_suffix, opt_view, same, same_opt, text_after, views};

verus! {

/// How much a model can take in: the sizes it offers, and the one it uses by default.
#[derive(Debug, Clone, PartialEq, Eq)]
pub struct QoderModelContextConfig {
    pub windows: Vec<u64>,
    pub default_window: Option<u64>,
}

/// The model of [`QoderModelContextConfig`].
#[verifier::ext_equal]
pub struct QoderModelContextConfigView {
    pub windows: Seq<u64>,
    pub default_window: Option<u64>,
}

impl View for QoderModelContextConfig {
    type V = QoderModelContextConfigView;

    open spec fn view(&self) -> QoderModelContextConfigView {
        QoderModelContextConfigView {
            windows: self.windows@,
            default_window: self.default_window,
        }
    }
}

/// What an agent told of itself.
#[derive(Debug, Clone)]
pub struct AgentHandshake {
    /// The models it offers: an object whose `available_models` lists them, each with an `id`.
    pub available_models: Option<Json>,
}

/// The model of [`AgentHandshake`].
#[verifier::ext_equal]
pub struct AgentHandshakeView {
    pub available_models: Option<JsonView>,
}

impl View for AgentHandshake {
    type V = AgentHandshakeView;

    open spec fn view(&self) -> AgentHandshakeView {
        AgentHandshakeView {
            available_models: opt_view(self.available_models),
        }
    }
}

// ---------------------------------------------------------------------
// The sizes of the models
// ---------------------------------------------------------------------

/// The sizes of models by their names.
#[derive(Debug, Clone)]
pub struct ContextCatalog {
    entries: Vec<(String, QoderModelContextConfig)>,
}

spec fn context_map(entries: Seq<(String, QoderModelContextConfig)>) -> Map<Seq<char>, QoderModelContextConfigView>
    decreases entries.len(),
{
    if entries.len() == 0 {
        Map::empty()
    } else {
        context_map(entries.drop_last()).insert(entries.last().0@, entries.last().1@)
    }
}

impl View for ContextCatalog {
    type V = Map<Seq<char>, QoderModelContextConfigView>;

    closed spec fn view(&self) -> Map<Seq<char>, QoderModelContextConfigView> {
        context_map(self.entries@)
    }
}

impl ContextCatalog {
    /// Nothing is known yet.
    pub fn new() -> (r: ContextCatalog)
        ensures
            r@ == Map::<Seq<char>, QoderModelContextConfigView>::empty(),
    {
        ContextCatalog { entries: Vec::new() }
    }

    /// Notes what is known of a model.
    pub fn insert(&mut self, id: String, value: QoderModelContextConfig)
        ensures
            final(self)@ == old(self)@.insert(id@, value@),
    {
        let ghost before = self.entries@;
        self.entries.push((id, value));
        assert(self.entries@.drop_last() =~= before);
    }

    /// Whether nothing is known.
    pub fn is_empty(&self) -> (r: bool)
        ensures
            r == (self@ == Map::<Seq<char>, QoderModelContextConfigView>::empty()),
    {
        proof {
            if self.entries@.len() > 0 {
                assert(self@.contains_key(self.entries@.last().0@));
            }
        }
        self.entries.len() == 0
    }

    /// What is known of a model.
    pub fn get(&self, id: &str) -> (r: Option<&QoderModelContextConfig>)
        ensures
            match r {
                Some(x) => self@.contains_key(id@) && self@[id@] == x@,
                None => !self@.contains_key(id@),
            },
    {
        let ghost all = self.entries@;
        let mut i: usize = self.entries.len();
        assert(all.take(i as int) =~= all);
        while 0 < i
            invariant
                i <= self.entries@.len(),
                all == self.entries@,
                context_map(all).contains_key(id@) == context_map(all.take(i as int)).contains_key(id@),
                context_map(all).contains_key(id@) ==> context_map(all)[id@] == context_map(all.take(i as int))[id@],
            decreases i,
        {
            i -= 1;
            assert(all.take(i + 1).drop_last() =~= all.take(i as int));
            if same(self.entries[i].0.as_str(), id) {
                return Some(&self.entries[i].1);
            }
        }
        None
    }
}

/// How hard models can think, by their names.
#[derive(Debug, Clone)]
pub struct EffortCatalog {
    entries: Vec<(String, Vec<String>)>,
}

spec fn effort_map(entries: Seq<(String, Vec<String>)>) -> Map<Seq<char>, Seq<Seq<char>>>
    decreases entries.len(),
{
    if entries.len() == 0 {
        Map::empty()
    } else {
        effort_map(entries.drop_last()).insert(entries.last().0@, views(entries.last().1@))
    }
}

impl View for EffortCatalog {
    type V = Map<Seq<char>, Seq<Seq<char>>>;

    closed spec fn view(&self) -> Map<Seq<char>, Seq<Seq<char>>> {
        effort_map(self.entries@)
    }
}

impl EffortCatalog {
    /// Nothing is known yet.
    pub fn new() -> (r: EffortCatalog)
        ensures
            r@ == Map::<Seq<char>, Seq<Seq<char>>>::empty(),
    {
        EffortCatalog { entries: Vec::new() }
    }

    /// Notes what is known of a model.
    pub fn insert(&mut self, id: String, value: Vec<String>)
        ensures
            final(self)@ == old(self)@.insert(id@, views(value@)),
    {
        let ghost before = self.entries@;
        self.entries.push((id, value));
        assert(self.entries@.drop_last() =~= before);
    }

    /// Whether nothing is known.
    pub fn is_empty(&self) -> (r: bool)
        ensures
            r == (self@ == Map::<Seq<char>, Seq<Seq<char>>>::empty()),
    {
        proof {
            if self.entries@.len() > 0 {
                assert(self@.contains_key(self.entries@.last().0@));
            }
        }
        self.entries.len() == 0
    }

    /// What is known of a model.
    pub fn get(&self, id: &str) -> (r: Option<&Vec<String>>)
        ensures
            match r {
                Some(x) => self@.contains_key(id@) && self@[id@] == views(x@),
                None => !self@.contains_key(id@),
            },
    {
        let ghost all = self.entries@;
        let mut i: usize = self.entries.len();
        assert(all.take(i as int) =~= all);
        while 0 < i
            invariant
                i <= self.entries@.len(),
                all == self.entries@,
                effort_map(all).contains_key(id@) == effort_map(all.take(i as int)).contains_key(id@),
                effort_map(all).contains_key(id@) ==> effort_map(all)[id@] == effort_map(all.take(i as int))[id@],
            decreases i,
        {
            i -= 1;
            assert(all.take(i + 1).drop_last() =~= all.take(i as int));
            if same(self.entries[i].0.as_str(), id) {
                return Some(&self.entries[i].1);
            }
        }
        None
    }
}

/// The first of two fields that is there.
pub open spec fn either_field(x: JsonView, a: Seq<char>, b: Seq<char>) -> Option<JsonView> {
    match field(x, a) {
        Some(v) => Some(v),
        None => field(x, b),
    }
}

fn get_either<'a>(x: &'a Json, a: &str, b: &str) -> (r: Option<&'a Json>)
    ensures
        opt_view(r) == either_field(x@, a@, b@),
{
    match x.get(a) {
        Some(v) => Some(v),
        None => x.get(b),
    }
}

/// The value at the end of a way of fields.
pub open spec fn field_of(x: Option<JsonView>, key: Seq<char>) -> Option<JsonView> {
    match x {
        Some(v) => field(v, key),
        None => None,
    }
}

fn get_of<'a>(x: Option<&'a Json>, key: &str) -> (r: Option<&'a Json>)
    ensures
        opt_view(r) == field_of(opt_view(x), key@),
{
    match x {
        Some(v) => v.get(key),
        None => None,
    }
}

fn text_of_value(x: Option<&Json>) -> (r: Option<&str>)
    ensures
        opt_view(r) == text_in(opt_view(x)),
{
    match x {
        Some(v) => v.as_str(),
        None => None,
    }
}

/// The positive numbers in a list, each of them once.
pub open spec fn windows_in(items: Seq<JsonView>) -> Seq<u64>
    decreases items.len(),
{
    if items.len() == 0 {
        Seq::empty()
    } else {
        let before = windows_in(items.drop_last());
        match u64_in(Some(items.last())) {
            Some(n) => if n > 0 && !before.contains(n) {
                before.push(n)
            } else {
                before
            },
            None => before,
        }
    }
}

/// The sizes that a model offers.
pub open spec fn model_windows(m: JsonView) -> Seq<u64> {
    match either_field(m, "availableContextWindows"@, "available_context_windows"@) {
        Some(JsonView::Array(items)) => windows_in(items),
        _ => Seq::empty(),
    }
}

/// The size that a model uses by default, if it is one that it offers.
pub open spec fn model_default(m: JsonView) -> Option<u64> {
    match u64_in(either_field(m, "defaultContextWindow"@, "default_context_window"@)) {
        Some(n) => if model_windows(m).contains(n) {
            Some(n)
        } else {
            None
        },
        None => None,
    }
}

/// The entry of a model: none without a name or without sizes.
pub open spec fn model_entry(m: JsonView) -> Option<(Seq<char>, QoderModelContextConfigView)> {
    match text_in(either_field(m, "modelId"@, "value"@)) {
        Some(id) => if id.len() > 0 && model_windows(m).len() > 0 {
            Some((id, QoderModelContextConfigView { windows: model_windows(m), default_window: model_default(m) }))
        } else {
            None
        },
        None => None,
    }
}

/// The entries of the models in a list; of two with one name the later counts.
pub open spec fn catalog_in(models: Seq<JsonView>) -> Map<Seq<char>, QoderModelContextConfigView>
    decreases models.len(),
{
    if models.len() == 0 {
        Map::empty()
    } else {
        match model_entry(models.last()) {
            Some((id, c)) => catalog_in(models.drop_last()).insert(id, c),
            None => catalog_in(models.drop_last()),
        }
    }
}

/// The sizes of the models in an answer, or why there are none.
pub open spec fn catalog_of(value: JsonView) -> Result<Map<Seq<char>, QoderModelContextConfigView>, Seq<char>> {
    match field_of(field_of(field(value, "response"@), "response"@), "models"@) {
        Some(JsonView::Array(models)) => if catalog_in(models) == Map::<
            Seq<char>,
            QoderModelContextConfigView,
        >::empty() {
            Err("Qoder native catalog contained no context-window metadata"@)
        } else {
            Ok(catalog_in(models))
        },
        _ => Err("Qoder native catalog response did not contain models"@),
    }
}

fn holds(windows: &Vec<u64>, n: u64) -> (r: bool)
    ensures
        r == windows@.contains(n),
{
    let mut i: usize = 0;
    while i < windows.len()
        invariant
            i <= windows@.len(),
            forall|k: int| 0 <= k < i ==> windows@[k] != n,
        decreases windows@.len() - i,
    {
        if windows[i] == n {
            return true;
        }
        i += 1;
    }
    false
}

fn read_windows(m: &Json) -> (r: Vec<u64>)
    ensures
        r@ == model_windows(m@),
{
    let mut windows: Vec<u64> = Vec::new();
    let list = match get_either(m, "availableContextWindows", "available_context_windows") {
        Some(v) => v.as_array(),
        None => None,
    };
    if let Some(items) = list {
        let ghost all = views(items@);
        let mut i: usize = 0;
        assert(all.take(0) =~= Seq::empty());
        while i < items.len()
            invariant
                i <= items@.len(),
                all == views(items@),
                windows@ == windows_in(all.take(i as int)),
            decreases items@.len() - i,
        {
            proof {
                assert(all.take(i + 1).drop_last() =~= all.take(i as int));
                assert(all.take(i + 1).last() == items@[i as int]@);
            }
            if let Some(n) = items[i].as_u64() {
                if n > 0 && !holds(&windows, n) {
                    windows.push(n);
                }
            }
            i += 1;
        }
        assert(all.take(i as int) =~= all);
    }
    windows
}

fn read_model(m: &Json) -> (r: Option<(String, QoderModelContextConfig)>)
    ensures
        match r {
            Some((id, c)) => model_entry(m@) == Some((id@, c@)),
            None => model_entry(m@) is None,
        },
{
    let id = match text_of_value(get_either(m, "modelId", "value")) {
        Some(t) => t,
        None => {
            return None;
        },
    };
    if id.is_empty() {
        return None;
    }
    let windows = read_windows(m);
    if windows.len() == 0 {
        return None;
    }
    let default_window = match get_either(m, "defaultContextWindow", "default_context_window") {
        Some(v) => match v.as_u64() {
            Some(n) => if holds(&windows, n) {
                Some(n)
            } else {
                None
            },
            None => None,
        },
        None => None,
    };
    Some((id.to_owned(), QoderModelContextConfig { windows, default_window }))
}

/// Reads the sizes of the models from an answer.
pub fn parse_qoder_native_model_catalog(value: &Json) -> (r: Result<ContextCatalog, String>)
    ensures
        match r {
            Ok(c) => catalog_of(value@) == Ok::<_, Seq<char>>(c@),
            Err(e) => catalog_of(value@) == Err::<Map<Seq<char>, QoderModelContextConfigView>, _>(e@),
        },
{
    let list = match get_of(get_of(value.get("response"), "response"), "models") {
        Some(v) => v.as_array(),
        None => None,
    };
    let models = match list {
        Some(v) => v,
        None => {
            return Err("Qoder native catalog response did not contain models".to_owned());
        },
    };
    let ghost all = views(models@);
    let mut catalog = ContextCatalog::new();
    let mut i: usize = 0;
    assert(all.take(0) =~= Seq::empty());
    while i < models.len()
        invariant
            i <= models@.len(),
            all == views(models@),
            catalog@ == catalog_in(all.take(i as int)),
        decreases models@.len() - i,
    {
        proof {
            assert(all.take(i + 1).drop_last() =~= all.take(i as int));
            assert(all.take(i + 1).last() == models@[i as int]@);
        }
        if let Some((id, c)) = read_model(&models[i]) {
            catalog.insert(id, c);
        }
        i += 1;
    }
    assert(all.take(i as int) =~= all);
    if catalog.is_empty() {
        return Err("Qoder native catalog contained no context-window metadata".to_owned());
    }
    Ok(catalog)
}

proof fn lemma_windows(items: Seq<JsonView>)
    ensures
        forall|i: int| 0 <= i < windows_in(items).len() ==> #[trigger] windows_in(items)[i] > 0,
        windows_in(items).no_duplicates(),
    decreases items.len(),
{
    if items.len() > 0 {
        lemma_windows(items.drop_last());
    }
}

/// A model is known only with sizes, all of them positive and none twice, and its default is
/// one of them.
pub proof fn law_sizes_are_sound(models: Seq<JsonView>, id: Seq<char>)
    ensures
        catalog_in(models).contains_key(id) ==> ({
            let c = catalog_in(models)[id];
            &&& id.len() > 0
            &&& c.windows.len() > 0
            &&& c.windows.no_duplicates()
            &&& forall|i: int| 0 <= i < c.windows.len() ==> #[trigger] c.windows[i] > 0
            &&& c.default_window matches Some(n) ==> c.windows.contains(n)
        }),
    decreases models.len(),
{
    if models.len() > 0 {
        law_sizes_are_sound(models.drop_last(), id);
        let m = models.last();
        match either_field(m, "availableContextWindows"@, "available_context_windows"@) {
            Some(JsonView::Array(items)) => {
                lemma_windows(items);
            },
            _ => {},
        }
    }
}

/// The request for the models.
pub open spec fn catalog_request() -> JsonView {
    object_of(
        seq![
            ("type"@, JsonView::Text("control_request"@)),
            ("request_id"@, JsonView::Text("aionui-model-catalog"@)),
            (
                "request"@,
                object_of(
                    seq![
                        ("type"@, JsonView::Text("initialize"@)),
                        ("supportsCatalogReadyInitialize"@, JsonView::Bool(true)),
                        ("supportsAvailableModelsUpdate"@, JsonView::Bool(true)),
                    ],
                ),
            ),
        ],
    )
}

/// The line with the request for the models.
pub fn catalog_request_line() -> (r: String)
    ensures
        r@ == json_text(catalog_request()) + "\n"@,
{
    let inner = Json::object3(
        "type",
        Json::text("initialize"),
        "supportsCatalogReadyInitialize",
        Json::Bool(true),
        "supportsAvailableModelsUpdate",
        Json::Bool(true),
    );
    let request = Json::object3(
        "type",
        Json::text("control_request"),
        "request_id",
        Json::text("aionui-model-catalog"),
        "request",
        inner,
    );
    let mut line = request.to_text();
    line.append("\n");
    line
}

/// What a line from the agent means.
#[derive(Debug)]
pub enum CatalogStep {
    Skip,
    Done(Result<ContextCatalog, String>),
}

/// The model of [`CatalogStep`].
pub enum CatalogStepView {
    Skip,
    Done(Result<Map<Seq<char>, QoderModelContextConfigView>, Seq<char>>),
}

impl View for CatalogStep {
    type V = CatalogStepView;

    open spec fn view(&self) -> CatalogStepView {
        match *self {
            CatalogStep::Skip => CatalogStepView::Skip,
            CatalogStep::Done(Ok(c)) => CatalogStepView::Done(Ok(c@)),
            CatalogStep::Done(Err(e)) => CatalogStepView::Done(Err(e@)),
        }
    }
}

/// What a value from the agent means: one that does not answer the request is skipped, and
/// one that does ends the exchange.
pub open spec fn catalog_step(value: JsonView) -> CatalogStepView {
    let response = field(value, "response"@);
    if text_field(value, "type"@) != Some("control_response"@) || text_in(field_of(response, "request_id"@)) != Some(
        "aionui-model-catalog"@,
    ) {
        CatalogStepView::Skip
    } else if text_in(field_of(response, "subtype"@)) != Some("success"@) {
        CatalogStepView::Done(
            Err(
                match text_in(field_of(response, "error"@)) {
                    Some(e) => e,
                    None => "Qoder native catalog request failed"@,
                },
            ),
        )
    } else {
        CatalogStepView::Done(catalog_of(value))
    }
}

/// Decides what a value from the agent means.
pub fn read_catalog_value(value: &Json) -> (r: CatalogStep)
    ensures
        r@ == catalog_step(value@),
{
    let response = value.get("response");
    if !same_opt(value.text_at("type"), Some("control_response")) || !same_opt(
        text_of_value(get_of(response, "request_id")),
        Some("aionui-model-catalog"),
    ) {
        return CatalogStep::Skip;
    }
    if !same_opt(text_of_value(get_of(response, "subtype")), Some("success")) {
        return match text_of_value(get_of(response, "error")) {
            Some(e) => CatalogStep::Done(Err(e.to_owned())),
            None => CatalogStep::Done(Err("Qoder native catalog request failed".to_owned())),
        };
    }
    CatalogStep::Done(parse_qoder_native_model_catalog(value))
}

/// Decides what a line from the agent means. One that is not in JSON notation is skipped.
pub fn probe_qoder_native_model_catalog(line: &str) -> (r: CatalogStep)
    ensures
        r@ == match json_parsed(line@) {
            Some(value) => catalog_step(value),
            None => CatalogStepView::Skip,
        },
{
    match Json::parse(line) {
        Some(value) => read_catalog_value(&value),
        None => CatalogStep::Skip,
    }
}

/// Why the exchange about the models came to nothing.
#[derive(Debug, Clone)]
pub enum CatalogFailure {
    SpawnFailed(String),
    NoStdio,
    WriteFailed(String),
    CloseFailed(String),
    ReadFailed(String),
    Ended,
    TimedOut,
}

/// The message about an exchange that came to nothing.
pub open spec fn catalog_failure_text(f: CatalogFailure) -> Seq<char> {
    match f {
        CatalogFailure::SpawnFailed(e) => "spawn failed: "@ + e@,
        CatalogFailure::NoStdio => "stdio not available after native Qoder spawn"@,
        CatalogFailure::WriteFailed(e) => "write initialize request failed: "@ + e@,
        CatalogFailure::CloseFailed(e) => "close initialize request failed: "@ + e@,
        CatalogFailure::ReadFailed(e) => "read catalog response failed: "@ + e@,
        CatalogFailure::Ended => "Qoder native catalog response ended before initialize completed"@,
        CatalogFailure::TimedOut => "Qoder native catalog did not complete within 60s"@,
    }
}

/// The message about an exchange that came to nothing.
pub fn catalog_failure(f: &CatalogFailure) -> (r: String)
    ensures
        r@ == catalog_failure_text(*f),
{
    match f {
        CatalogFailure::SpawnFailed(e) => text_after("spawn failed: ", e.as_str()),
        CatalogFailure::NoStdio => "stdio not available after native Qoder spawn".to_owned(),
        CatalogFailure::WriteFailed(e) => text_after("write initialize request failed: ", e.as_str()),
        CatalogFailure::CloseFailed(e) => text_after("close initialize request failed: ", e.as_str()),
        CatalogFailure::ReadFailed(e) => text_after("read catalog response failed: ", e.as_str()),
        CatalogFailure::Ended => {
            "Qoder native catalog response ended before initialize completed".to_owned()
        },
        CatalogFailure::TimedOut => "Qoder native catalog did not complete within 60s".to_owned(),
    }
}

// ---------------------------------------------------------------------
// What is added to the models
// ---------------------------------------------------------------------

/// The models that an agent listed.
pub open spec fn models_in(h: AgentHandshakeView) -> Option<Seq<JsonView>> {
    match field_of(h.available_models, "available_models"@) {
        Some(JsonView::Array(models)) => Some(models),
        _ => None,
    }
}

/// What an agent told of itself with another list of models.
pub open spec fn with_models(h: AgentHandshakeView, models: Seq<JsonView>) -> AgentHandshakeView {
    match h.available_models {
        Some(JsonView::Object(entries)) => AgentHandshakeView {
            available_models: Some(
                JsonView::Object(put(entries, "available_models"@, JsonView::Array(models))),
            ),
        },
        _ => h,
    }
}

/// A number for each size.
pub open spec fn numbers(items: Seq<u64>) -> JsonView {
    JsonView::Array(Seq::new(items.len(), |i: int| JsonView::Number(number_of(items[i] as int))))
}

/// A model with its sizes.
pub open spec fn with_sizes(model: JsonView, c: QoderModelContextConfigView) -> JsonView {
    match model {
        JsonView::Object(entries) => {
            let sized = put(entries, "available_context_windows"@, numbers(c.windows));
            JsonView::Object(
                match c.default_window {
                    Some(n) => put(sized, "default_context_window"@, JsonView::Number(number_of(n as int))),
                    None => sized,
                },
            )
        },
        _ => model,
    }
}

/// A model with its sizes, if they are known.
pub open spec fn model_with_context(
    model: JsonView,
    catalog: Map<Seq<char>, QoderModelContextConfigView>,
) -> JsonView {
    match text_field(model, "id"@) {
        Some(id) => if catalog.contains_key(id) {
            with_sizes(model, catalog[id])
        } else {
            model
        },
        None => model,
    }
}

/// What an agent told of itself, with the sizes of the models that it listed. No model is
/// added.
pub open spec fn with_contexts(
    h: AgentHandshakeView,
    catalog: Map<Seq<char>, QoderModelContextConfigView>,
) -> AgentHandshakeView {
    match models_in(h) {
        Some(models) => with_models(h, Seq::new(models.len(), |i: int| model_with_context(models[i], catalog))),
        None => h,
    }
}

/// A model with how hard it can think, if that is known.
pub open spec fn model_with_efforts(model: JsonView, catalog: Map<Seq<char>, Seq<Seq<char>>>) -> JsonView {
    match text_field(model, "id"@) {
        Some(id) => if catalog.contains_key(id) {
            JsonView::Object(put(model->Object_0, "reasoning_efforts"@, text_array(catalog[id])))
        } else {
            model
        },
        None => model,
    }
}

/// What an agent told of itself, with how hard the models that it listed can think. A model
/// of which it is known that it has no such choice gets an empty list.
pub open spec fn with_efforts(h: AgentHandshakeView, catalog: Map<Seq<char>, Seq<Seq<char>>>) -> AgentHandshakeView {
    match models_in(h) {
        Some(models) => with_models(h, Seq::new(models.len(), |i: int| model_with_efforts(models[i], catalog))),
        None => h,
    }
}

fn numbers_of(items: &Vec<u64>) -> (r: Json)
    ensures
        r@ == numbers(items@),
{
    let mut out: Vec<Json> = Vec::new();
    let mut i: usize = 0;
    while i < items.len()
        invariant
            i <= items@.len(),
            out@.len() == i,
            forall|k: int| 0 <= k < i ==> #[trigger] out@[k]@ == JsonView::Number(number_of(items@[k] as int)),
        decreases items@.len() - i,
    {
        out.push(Json::from_u64(items[i]));
        i += 1;
    }
    assert(views(out@) =~= Seq::new(items@.len(), |i: int| JsonView::Number(number_of(items@[i] as int))));
    Json::array(out)
}

fn add_context(model: &Json, catalog: &ContextCatalog) -> (r: Json)
    ensures
        r@ == model_with_context(model@, catalog@),
{
    let id = match model.text_at("id") {
        Some(id) => id,
        None => {
            return model.clone();
        },
    };
    match catalog.get(id) {
        Some(c) => {
            let sized = model.with_entry("available_context_windows", numbers_of(&c.windows));
            match c.default_window {
                Some(n) => sized.with_entry("default_context_window", Json::from_u64(n)),
                None => sized,
            }
        },
        None => model.clone(),
    }
}

fn add_efforts(model: &Json, catalog: &EffortCatalog) -> (r: Json)
    ensures
        r@ == model_with_efforts(model@, catalog@),
{
    let id = match model.text_at("id") {
        Some(id) => id,
        None => {
            return model.clone();
        },
    };
    match catalog.get(id) {
        Some(efforts) => model.with_entry("reasoning_efforts", Json::texts(efforts)),
        None => model.clone(),
    }
}

fn listed_models(h: &AgentHandshake) -> (r: Option<&Vec<Json>>)
    ensures
        match r {
            Some(v) => models_in(h@) == Some(views(v@)),
            None => models_in(h@) is None,
        },
{
    match &h.available_models {
        Some(payload) => match payload.get("available_models") {
            Some(list) => list.as_array(),
            None => None,
        },
        None => None,
    }
}

fn set_models(h: &mut AgentHandshake, models: Vec<Json>)
    ensures
        final(h)@ == with_models(old(h)@, views(models@)),
{
    let changed = match &h.available_models {
        Some(payload) => if payload.is_object() {
            Some(payload.with_entry("available_models", Json::array(models)))
        } else {
            None
        },
        None => None,
    };
    if let Some(payload) = changed {
        h.available_models = Some(payload);
    }
}

/// Adds the sizes of the models to those that the agent listed.
pub fn attach_model_context_windows(handshake: &mut AgentHandshake, catalog: &ContextCatalog)
    ensures
        final(handshake)@ == with_contexts(old(handshake)@, catalog@),
{
    let mut out: Vec<Json> = Vec::new();
    match listed_models(handshake) {
        Some(models) => {
            let mut i: usize = 0;
            while i < models.len()
                invariant
                    i <= models@.len(),
                    out@.len() == i,
                    forall|k: int|
                        0 <= k < i ==> #[trigger] out@[k]@ == model_with_context(views(models@)[k], catalog@),
                decreases models@.len() - i,
            {
                out.push(add_context(&models[i], catalog));
                i += 1;
            }
            assert(views(out@) =~= Seq::new(
                views(models@).len(),
                |i: int| model_with_context(views(models@)[i], catalog@),
            ));
        },
        None => {
            return;
        },
    }
    set_models(handshake, out);
}

/// Adds how hard the models can think to those that the agent listed.
pub fn attach_model_reasoning_efforts(handshake: &mut AgentHandshake, catalog: &EffortCatalog)
    ensures
        final(handshake)@ == with_efforts(old(handshake)@, catalog@),
{
    let mut out: Vec<Json> = Vec::new();
    match listed_models(handshake) {
        Some(models) => {
            let mut i: usize = 0;
            while i < models.len()
                invariant
                    i <= models@.len(),
                    out@.len() == i,
                    forall|k: int|
                        0 <= k < i ==> #[trigger] out@[k]@ == model_with_efforts(views(models@)[k], catalog@),
                decreases models@.len() - i,
            {
                out.push(add_efforts(&models[i], catalog));
                i += 1;
            }
            assert(views(out@) =~= Seq::new(
                views(models@).len(),
                |i: int| model_with_efforts(views(models@)[i], catalog@),
            ));
        },
        None => {
            return;
        },
    }
    set_models(handshake, out);
}

proof fn lemma_put_leaves_id(model: JsonView, key: Seq<char>, value: JsonView)
    requires
        model is Object,
        key != "id"@,
    ensures
        text_field(JsonView::Object(put(model->Object_0, key, value)), "id"@) == text_field(model, "id"@),
{
    lemma_lookup_put(model->Object_0, key, value, "id"@);
}

proof fn lemma_model_keeps_id(model: JsonView, catalog: Map<Seq<char>, QoderModelContextConfigView>)
    ensures
        text_field(model_with_context(model, catalog), "id"@) == text_field(model, "id"@),
{
    reveal_strlit("id");
    reveal_strlit("available_context_windows");
    reveal_strlit("default_context_window");
    assert("id"@.len() == 2);
    if let Some(id) = text_field(model, "id"@) {
        if catalog.contains_key(id) {
            let c = catalog[id];
            lemma_put_leaves_id(model, "available_context_windows"@, numbers(c.windows));
            if let Some(n) = c.default_window {
                let sized = JsonView::Object(
                    put(model->Object_0, "available_context_windows"@, numbers(c.windows)),
                );
                lemma_put_leaves_id(sized, "default_context_window"@, JsonView::Number(number_of(n as int)));
            }
        }
    }
}

/// Adding sizes neither adds nor removes nor renames a model, and changes none whose sizes
/// are not known.
pub proof fn law_no_model_is_invented(
    h: AgentHandshakeView,
    catalog: Map<Seq<char>, QoderModelContextConfigView>,
    i: int,
)
    requires
        models_in(h) is Some,
        0 <= i < models_in(h).unwrap().len(),
    ensures
        models_in(with_contexts(h, catalog)) is Some,
        models_in(with_contexts(h, catalog)).unwrap().len() == models_in(h).unwrap().len(),
        text_field(models_in(with_contexts(h, catalog)).unwrap()[i], "id"@) == text_field(
            models_in(h).unwrap()[i],
            "id"@,
        ),
        (text_field(models_in(h).unwrap()[i], "id"@) matches Some(id) ==> !catalog.contains_key(id)) ==> models_in(
            with_contexts(h, catalog),
        ).unwrap()[i] == models_in(h).unwrap()[i],
{
    let models = models_in(h).unwrap();
    let after = Seq::new(models.len(), |i: int| model_with_context(models[i], catalog));
    let payload = h.available_models.unwrap();
    lemma_lookup_put(payload->Object_0, "available_models"@, JsonView::Array(after), "available_models"@);
    assert(models_in(with_contexts(h, catalog)) == Some(after));
    lemma_model_keeps_id(models[i], catalog);
}

/// A model of which it is known how hard it can think says so afterwards, even where it has
/// no choice.
pub proof fn law_known_efforts_are_kept(
    h: AgentHandshakeView,
    catalog: Map<Seq<char>, Seq<Seq<char>>>,
    i: int,
    id: Seq<char>,
)
    requires
        models_in(h) is Some,
        0 <= i < models_in(h).unwrap().len(),
        text_field(models_in(h).unwrap()[i], "id"@) == Some(id),
        catalog.contains_key(id),
    ensures
        models_in(with_efforts(h, catalog)) is Some,
        field(models_in(with_efforts(h, catalog)).unwrap()[i], "reasoning_efforts"@) == Some(
            text_array(catalog[id]),
        ),
{
    let models = models_in(h).unwrap();
    let after = Seq::new(models.len(), |i: int| model_with_efforts(models[i], catalog));
    let payload = h.available_models.unwrap();
    lemma_lookup_put(payload->Object_0, "available_models"@, JsonView::Array(after), "available_models"@);
    assert(models_in(with_efforts(h, catalog)) == Some(after));
    lemma_lookup_put(
        models[i]->Object_0,
        "reasoning_efforts"@,
        text_array(catalog[id]),
        "reasoning_efforts"@,
    );
}

// ---------------------------------------------------------------------
// What is read and attached
// ---------------------------------------------------------------------

/// The sizes of a model are the positive whole numbers that are listed, each once.
pub proof fn law_sizes_are_those_listed(items: Seq<JsonView>, n: u64)
    ensures
        windows_in(items).contains(n) <==> n > 0 && exists|i: int|
            0 <= i < items.len() && u64_in(Some(#[trigger] items[i])) == Some(n),
        windows_in(items).no_duplicates(),
    decreases items.len(),
{
    if items.len() > 0 {
        let init = items.drop_last();
        law_sizes_are_those_listed(init, n);
        let before = windows_in(init);
        let after = windows_in(items);
        assert(items[items.len() - 1] == items.last());
        assert(forall|i: int| 0 <= i < init.len() ==> #[trigger] init[i] == items[i]);
        if n > 0 && exists|i: int| 0 <= i < items.len() && u64_in(Some(#[trigger] items[i])) == Some(n) {
            let i = choose|i: int| 0 <= i < items.len() && u64_in(Some(#[trigger] items[i])) == Some(n);
            if i < init.len() {
                assert(u64_in(Some(init[i])) == Some(n));
            } else if !before.contains(n) {
                assert(after[after.len() - 1] == n);
            }
        }
        if before.contains(n) {
            let k = before.index_of(n);
            assert(after[k] == n);
            let i = choose|i: int| 0 <= i < init.len() && u64_in(Some(#[trigger] init[i])) == Some(n);
            assert(u64_in(Some(items[i])) == Some(n));
        }
        if after.contains(n) && !before.contains(n) {
            let k = after.index_of(n);
            if k < before.len() {
                assert(before[k] == n);
            }
        }
    }
}

/// A model is known by its identifier, which it has under either of two names, with its sizes
/// and with the default among them; without an identifier or a size it is passed over.
pub proof fn law_a_model_is_known_with_its_sizes(m: JsonView, items: Seq<JsonView>, id: Seq<char>)
    requires
        text_field(m, "modelId"@) == Some(id) || (field(m, "modelId"@) is None && text_field(m, "value"@) == Some(id)),
        field(m, "availableContextWindows"@) == Some(JsonView::Array(items)) || (field(m, "availableContextWindows"@) is None
            && field(m, "available_context_windows"@) == Some(JsonView::Array(items))),
    ensures
        id.len() > 0 && windows_in(items).len() > 0 ==> (model_entry(m) matches Some(e) && e.0 == id && e.1.windows
            == windows_in(items)),
        id.len() == 0 || windows_in(items).len() == 0 ==> model_entry(m) is None,
        forall|n: u64|
            #[trigger] windows_in(items).contains(n) && id.len() > 0 && u64_in(field(m, "defaultContextWindow"@))
                == Some(n) ==> model_entry(m) is Some && model_entry(m).unwrap().1.default_window == Some(n),
        u64_in(field(m, "defaultContextWindow"@)) is None && field(m, "default_context_window"@) is None ==> (
        model_entry(m) matches Some(e) ==> e.1.default_window is None),
{
}

/// Where a model is listed several times, its last entry counts; nothing else is in the
/// catalogue than what is listed.
pub proof fn law_the_last_entry_counts(models: Seq<JsonView>, id: Seq<char>, k: int)
    ensures
        0 <= k < models.len() && model_entry(models[k]) is Some && model_entry(models[k]).unwrap().0 == id && (forall|
            j: int,
        |
            k < j < models.len() ==> model_entry(#[trigger] models[j]) is None || model_entry(models[j]).unwrap().0
                != id) ==> catalog_in(models).contains_key(id) && catalog_in(models)[id] == model_entry(
            models[k],
        ).unwrap().1,
        (forall|j: int|
            0 <= j < models.len() ==> model_entry(#[trigger] models[j]) is None || model_entry(models[j]).unwrap().0
                != id) ==> !catalog_in(models).contains_key(id),
    decreases models.len(),
{
    if models.len() > 0 {
        let init = models.drop_last();
        law_the_last_entry_counts(init, id, k);
        assert(models[models.len() - 1] == models.last());
        assert(forall|j: int| 0 <= j < init.len() ==> #[trigger] init[j] == models[j]);
    }
}

/// The catalogue is read from the models of the answer; an answer without models, or whose
/// models have no sizes, is an error.
pub proof fn law_the_catalogue_is_in_the_answer(
    value: JsonView,
    outer: JsonView,
    inner: JsonView,
    models: Seq<JsonView>,
    k: int,
)
    requires
        field(value, "response"@) == Some(outer),
        field(outer, "response"@) == Some(inner),
        field(inner, "models"@) == Some(JsonView::Array(models)),
    ensures
        0 <= k < models.len() && model_entry(models[k]) is Some ==> catalog_of(value) == Ok::<
            Map<Seq<char>, QoderModelContextConfigView>,
            Seq<char>,
        >(catalog_in(models)),
        (forall|j: int| 0 <= j < models.len() ==> model_entry(#[trigger] models[j]) is None) ==> catalog_of(
            value,
        ) is Err,
{
    if 0 <= k < models.len() && model_entry(models[k]) is Some {
        lemma_entry_is_in(models, k);
        assert(catalog_in(models).contains_key(model_entry(models[k]).unwrap().0));
    }
    if forall|j: int| 0 <= j < models.len() ==> model_entry(#[trigger] models[j]) is None {
        lemma_no_entries(models);
    }
}

proof fn lemma_entry_is_in(models: Seq<JsonView>, k: int)
    requires
        0 <= k < models.len(),
        model_entry(models[k]) is Some,
    ensures
        catalog_in(models).contains_key(model_entry(models[k]).unwrap().0),
    decreases models.len(),
{
    if k < models.len() - 1 {
        assert(models.drop_last()[k] == models[k]);
        lemma_entry_is_in(models.drop_last(), k);
    }
}

proof fn lemma_no_entries(models: Seq<JsonView>)
    requires
        forall|j: int| 0 <= j < models.len() ==> model_entry(#[trigger] models[j]) is None,
    ensures
        catalog_in(models) == Map::<Seq<char>, QoderModelContextConfigView>::empty(),
    decreases models.len(),
{
    if models.len() > 0 {
        let init = models.drop_last();
        assert(model_entry(models[models.len() - 1]) is None);
        assert forall|j: int| 0 <= j < init.len() implies model_entry(#[trigger] init[j]) is None by {
            assert(init[j] == models[j]);
        }
        lemma_no_entries(init);
    }
}

/// Only the answer to the request counts: other lines are passed over, a success gives the
/// catalogue, and a failure the words that it comes with.
pub proof fn law_only_the_answer_counts(value: JsonView, response: JsonView)
    ensures
        text_field(value, "type"@) != Some("control_response"@) ==> catalog_step(value) is Skip,
        field(value, "response"@) == Some(response) && text_field(response, "request_id"@) != Some(
            "aionui-model-catalog"@,
        ) ==> catalog_step(value) is Skip,
        field(value, "response"@) is None ==> catalog_step(value) is Skip,
        text_field(value, "type"@) == Some("control_response"@) && field(value, "response"@) == Some(response)
            && text_field(response, "request_id"@) == Some("aionui-model-catalog"@) ==> {
            &&& text_field(response, "subtype"@) == Some("success"@) ==> catalog_step(value) == CatalogStepView::Done(
                catalog_of(value),
            )
            &&& text_field(response, "subtype"@) != Some("success"@) ==> catalog_step(value) is Done
                && catalog_step(value)->Done_0 is Err
            &&& text_field(response, "subtype"@) != Some("success"@) ==> (text_field(response, "error"@) matches Some(
                e,
            ) ==> catalog_step(value)->Done_0->Err_0 == e)
        },
{
}

/// A model that the catalogue knows is given its sizes, and its default where there is one.
pub proof fn law_known_sizes_are_attached(
    h: AgentHandshakeView,
    catalog: Map<Seq<char>, QoderModelContextConfigView>,
    i: int,
    id: Seq<char>,
)
    requires
        models_in(h) is Some,
        0 <= i < models_in(h).unwrap().len(),
        text_field(models_in(h).unwrap()[i], "id"@) == Some(id),
        catalog.contains_key(id),
    ensures
        models_in(with_contexts(h, catalog)) is Some,
        field(models_in(with_contexts(h, catalog)).unwrap()[i], "available_context_windows"@) == Some(
            numbers(catalog[id].windows),
        ),
        catalog[id].default_window matches Some(n) ==> field(
            models_in(with_contexts(h, catalog)).unwrap()[i],
            "default_context_window"@,
        ) == Some(JsonView::Number(number_of(n as int))),
        catalog[id].default_window is None ==> field(
            models_in(with_contexts(h, catalog)).unwrap()[i],
            "default_context_window"@,
        ) == field(models_in(h).unwrap()[i], "default_context_window"@),
{
    let models = models_in(h).unwrap();
    law_no_model_is_invented(h, catalog, i);
    let entries = models[i]->Object_0;
    let c = catalog[id];
    reveal_strlit("available_context_windows");
    reveal_strlit("default_context_window");
    assert("available_context_windows"@.len() == 25);
    assert("default_context_window"@.len() == 22);
    let sized = put(entries, "available_context_windows"@, numbers(c.windows));
    lemma_lookup_put(entries, "available_context_windows"@, numbers(c.windows), "available_context_windows"@);
    lemma_lookup_put(entries, "available_context_windows"@, numbers(c.windows), "default_context_window"@);
    if let Some(n) = c.default_window {
        let v = JsonView::Number(number_of(n as int));
        lemma_lookup_put(sized, "default_context_window"@, v, "available_context_windows"@);
        lemma_lookup_put(sized, "default_context_window"@, v, "default_context_window"@);
    }
    let top = h.available_models.unwrap()->Object_0;
    let with = Seq::new(models.len(), |i: int| model_with_context(models[i], catalog));
    lemma_lookup_put(top, "available_models"@, JsonView::Array(with), "available_models"@);
    assert(models_in(with_contexts(h, catalog)).unwrap()[i] == with_sizes(models[i], c));
}

/// What went wrong is told by what was tried, and with the words of the failure.
pub proof fn law_failures_are_told_apart(f: CatalogFailure)
    ensures
        f matches CatalogFailure::SpawnFailed(e) ==> has_suffix(catalog_failure_text(f), e@) && has_prefix(
            catalog_failure_text(f),
            "spawn failed"@,
        ),
        f matches CatalogFailure::WriteFailed(e) ==> has_suffix(catalog_failure_text(f), e@) && has_prefix(
            catalog_failure_text(f),
            "write initialize request failed"@,
        ),
        f matches CatalogFailure::CloseFailed(e) ==> has_suffix(catalog_failure_text(f), e@) && has_prefix(
            catalog_failure_text(f),
            "close initialize request failed"@,
        ),
        f matches CatalogFailure::ReadFailed(e) ==> has_suffix(catalog_failure_text(f), e@) && has_prefix(
            catalog_failure_text(f),
            "read catalog response failed"@,
        ),
        f is NoStdio ==> catalog_failure_text(f) == "stdio not available after native Qoder spawn"@,
        f is Ended ==> catalog_failure_text(f) == "Qoder native catalog response ended before initialize completed"@,
        f is TimedOut ==> catalog_failure_text(f) == "Qoder native catalog did not complete within 60s"@,
{
    reveal_strlit("spawn failed: ");
    reveal_strlit("spawn failed");
    reveal_strlit("write initialize request failed: ");
    reveal_strlit("write initialize request failed");
    reveal_strlit("close initialize request failed: ");
    reveal_strlit("close initialize request failed");
    reveal_strlit("read catalog response failed: ");
    reveal_strlit("read catalog response failed");
    let text = catalog_failure_text(f);
    match f {
        CatalogFailure::SpawnFailed(e) => {
            assert(text.skip(text.len() - e@.len()) =~= e@);
            assert(text.take("spawn failed"@.len() as int) =~= "spawn failed"@);
        },
        CatalogFailure::WriteFailed(e) => {
            assert(text.skip(text.len() - e@.len()) =~= e@);
            assert(text.take("write initialize request failed"@.len() as int)
                =~= "write initialize request failed"@);
        },
        CatalogFailure::CloseFailed(e) => {
            assert(text.skip(text.len() - e@.len()) =~= e@);
            assert(text.take("close initialize request failed"@.len() as int)
                =~= "close initialize request failed"@);
        },
        CatalogFailure::ReadFailed(e) => {
            assert(text.skip(text.len() - e@.len()) =~= e@);
            assert(text.take("read catalog response failed"@.len() as int) =~= "read catalog response failed"@);
        },
        _ => {},
    }
}

/// The catalogue is asked for by a control request that goes by a name of its own and wants
/// the session to be initialised with the catalogue ready and its changes told.
pub proof fn law_the_catalogue_is_asked_for()
    ensures
        text_field(catalog_request(), "type"@) == Some("control_request"@),
        text_field(catalog_request(), "request_id"@) == Some("aionui-model-catalog"@),
        field(catalog_request(), "request"@) is Some,
        text_field(field(catalog_request(), "request"@).unwrap(), "type"@) == Some("initialize"@),
        field(field(catalog_request(), "request"@).unwrap(), "supportsCatalogReadyInitialize"@) == Some(
            JsonView::Bool(true),
        ),
        field(field(catalog_request(), "request"@).unwrap(), "supportsAvailableModelsUpdate"@) == Some(
            JsonView::Bool(true),
        ),
{
    reveal_strlit("type");
    reveal_strlit("request_id");
    reveal_strlit("request");
    reveal_strlit("supportsCatalogReadyInitialize");
    reveal_strlit("supportsAvailableModelsUpdate");
    assert("type"@.len() == 4);
    assert("request_id"@.len() == 10);
    assert("request"@.len() == 7);
    assert("supportsCatalogReadyInitialize"@.len() == 30);
    assert("supportsAvailableModelsUpdate"@.len() == 29);
    let inner = seq![
        ("type"@, JsonView::Text("initialize"@)),
        ("supportsCatalogReadyInitialize"@, JsonView::Bool(true)),
        ("supportsAvailableModelsUpdate"@, JsonView::Bool(true)),
    ];
    let outer = seq![
        ("type"@, JsonView::Text("control_request"@)),
        ("request_id"@, JsonView::Text("aionui-model-catalog"@)),
        ("request"@, object_of(inner)),
    ];
    law_object_holds_its_entries(inner, 0, "type"@);
    law_object_holds_its_entries(inner, 1, "supportsCatalogReadyInitialize"@);
    law_object_holds_its_entries(inner, 2, "supportsAvailableModelsUpdate"@);
    law_object_holds_its_entries(outer, 0, "type"@);
    law_object_holds_its_entries(outer, 1, "request_id"@);
    law_object_holds_its_entries(outer, 2, "request"@);
}

} // verus!
