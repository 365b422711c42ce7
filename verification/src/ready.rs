//! Making a local model ready: a running server, a model that is on disk, and a
//! model that is being loaded.

use vstd::prelude::*;

use crate::client::{models_view, LemonadeClient, Models, LEMONADE_OSS_PROVIDER_ID};
use crate::config::Config;
use crate::error::{outcome, ClientError, ErrorKind, ErrorView};
use crate::text::{law_texts_are_those_of_the_strings, lists, lists_text};

verus! {

/// The model that is used where the user asked for none.
pub const DEFAULT_OSS_MODEL: &'static str = "Qwen3-30B-A3B-Instruct-2507-GGUF";

/// The model that is used.
pub open spec fn chosen_model(wanted: Option<Seq<char>>) -> Seq<char> {
    match wanted {
        Some(model) => model,
        None => DEFAULT_OSS_MODEL@,
    }
}

/// How far the work has come.
pub enum OssStage {
    /// See to it that the server runs.
    EnsuringServer,
    /// Ask for the models on disk.
    Fetching,
    /// Download the model.
    Downloading,
    /// Have the model loaded in the background.
    Loading,
    /// It is over.
    Finished(Result<(), ClientError>),
}

/// The work on one model with one server.
pub struct OssSetup {
    model: String,
    client: LemonadeClient,
    stage: OssStage,
}

/// What is to be done next.
#[derive(Clone, Copy, Debug, PartialEq, Eq, Structural)]
pub enum OssAction {
    EnsureServerRunning,
    FetchModels,
    DownloadModel,
    /// Start loading the model, without waiting for it.
    SpawnLoad,
}

/// What came of an action.
pub enum OssEvent {
    ServerRunning(Result<(), ClientError>),
    Fetched(Models),
    Downloaded(Result<(), ClientError>),
    LoadSpawned,
}

/// `OssStage` as contracts speak of it.
pub enum OssStageView {
    EnsuringServer,
    Fetching,
    Downloading,
    Loading,
    Finished(Result<(), ErrorView>),
}

/// `OssSetup` as contracts speak of it.
pub struct OssView {
    pub model: Seq<char>,
    pub base: Seq<char>,
    pub stage: OssStageView,
}

/// `OssEvent` as contracts speak of it.
pub enum OssEventView {
    ServerRunning(Result<(), ErrorView>),
    Fetched(Result<Seq<Seq<char>>, ErrorView>),
    Downloaded(Result<(), ErrorView>),
    LoadSpawned,
}

impl View for OssStage {
    type V = OssStageView;

    open spec fn view(&self) -> OssStageView {
        match self {
            OssStage::EnsuringServer => OssStageView::EnsuringServer,
            OssStage::Fetching => OssStageView::Fetching,
            OssStage::Downloading => OssStageView::Downloading,
            OssStage::Loading => OssStageView::Loading,
            OssStage::Finished(r) => OssStageView::Finished(outcome(*r)),
        }
    }
}

impl View for OssSetup {
    type V = OssView;

    closed spec fn view(&self) -> OssView {
        OssView { model: self.model@, base: self.client.base(), stage: self.stage@ }
    }
}

impl View for OssEvent {
    type V = OssEventView;

    open spec fn view(&self) -> OssEventView {
        match self {
            OssEvent::ServerRunning(r) => OssEventView::ServerRunning(outcome(*r)),
            OssEvent::Fetched(models) => OssEventView::Fetched(models_view(*models)),
            OssEvent::Downloaded(r) => OssEventView::Downloaded(outcome(*r)),
            OssEvent::LoadSpawned => OssEventView::LoadSpawned,
        }
    }
}

/// Whether `model` has to be downloaded, from what came of the request for the
/// models on disk: only a list without it says so.
pub open spec fn needs_download(
    model: Seq<char>,
    models: Result<Seq<Seq<char>>, ErrorView>,
) -> bool {
    models matches Ok(listed) && !lists(listed, model)
}

impl OssView {
    /// What is to be done next, unless it is over.
    pub open spec fn action(self) -> Option<OssAction> {
        match self.stage {
            OssStageView::EnsuringServer => Some(OssAction::EnsureServerRunning),
            OssStageView::Fetching => Some(OssAction::FetchModels),
            OssStageView::Downloading => Some(OssAction::DownloadModel),
            OssStageView::Loading => Some(OssAction::SpawnLoad),
            OssStageView::Finished(_) => None,
        }
    }

    /// The stage that an event leads to. One that does not answer the pending
    /// action is passed over.
    pub open spec fn next_stage(self, event: OssEventView) -> OssStageView {
        match (self.stage, event) {
            (OssStageView::EnsuringServer, OssEventView::ServerRunning(r)) => match r {
                Ok(_) => OssStageView::Fetching,
                Err(e) => OssStageView::Finished(Err(e)),
            },
            (OssStageView::Fetching, OssEventView::Fetched(models)) => if needs_download(
                self.model,
                models,
            ) {
                OssStageView::Downloading
            } else {
                OssStageView::Loading
            },
            (OssStageView::Downloading, OssEventView::Downloaded(r)) => match r {
                Ok(_) => OssStageView::Loading,
                Err(e) => OssStageView::Finished(Err(e)),
            },
            (OssStageView::Loading, OssEventView::LoadSpawned) => OssStageView::Finished(Ok(())),
            _ => self.stage,
        }
    }

    /// Where an event leads.
    pub open spec fn next(self, event: OssEventView) -> OssView {
        OssView { stage: self.next_stage(event), ..self }
    }

    /// Where a run of events leads.
    pub open spec fn run(self, events: Seq<OssEventView>) -> OssView
        decreases events.len(),
    {
        if events.len() == 0 {
            self
        } else {
            self.next(events[0]).run(events.drop_first())
        }
    }
}

/// Starts the work that makes the local model ready: the server is to run, the
/// model to be downloaded where it is missing, and its loading to be under way.
pub fn ensure_oss_ready(config: &Config) -> (r: Result<OssSetup, ClientError>)
    ensures
        match r {
            Ok(setup) => {
                &&& config.providers().contains_key(LEMONADE_OSS_PROVIDER_ID@)
                &&& config.providers()[LEMONADE_OSS_PROVIDER_ID@] == Some(setup@.base)
                &&& setup@.model == chosen_model(config.wanted())
                &&& setup@.stage == OssStageView::EnsuringServer
            },
            Err(e) => if config.providers().contains_key(LEMONADE_OSS_PROVIDER_ID@) {
                &&& config.providers()[LEMONADE_OSS_PROVIDER_ID@] is None
                &&& e.kind == ErrorKind::InvalidData
                &&& e.message@ == "oss provider must have a base_url"@
            } else {
                &&& e.kind == ErrorKind::NotFound
                &&& e.message@ == "Built-in provider "@ + LEMONADE_OSS_PROVIDER_ID@ + " not found"@
            },
        },
{
    let model = match config.model() {
        Some(model) => model.clone(),
        None => DEFAULT_OSS_MODEL.to_owned(),
    };
    match LemonadeClient::try_from_provider(config) {
        Ok(client) => Ok(OssSetup { model, client, stage: OssStage::EnsuringServer }),
        Err(e) => Err(e),
    }
}

impl OssSetup {
    /// The model that is made ready.
    pub fn model(&self) -> (r: &String)
        ensures
            r@ == self@.model,
    {
        &self.model
    }

    /// The client of the server.
    pub fn client(&self) -> (r: &LemonadeClient)
        ensures
            r.base() == self@.base,
    {
        &self.client
    }

    /// What is to be done next, unless it is over.
    pub fn action(&self) -> (r: Option<OssAction>)
        ensures
            r == self@.action(),
    {
        match &self.stage {
            OssStage::EnsuringServer => Some(OssAction::EnsureServerRunning),
            OssStage::Fetching => Some(OssAction::FetchModels),
            OssStage::Downloading => Some(OssAction::DownloadModel),
            OssStage::Loading => Some(OssAction::SpawnLoad),
            OssStage::Finished(_) => None,
        }
    }

    /// Where an event leads.
    pub fn next(self, event: OssEvent) -> (r: OssSetup)
        ensures
            r@ == self@.next(event@),
    {
        let stage = match (self.stage, event) {
            (OssStage::EnsuringServer, OssEvent::ServerRunning(r)) => match r {
                Ok(_) => OssStage::Fetching,
                Err(e) => OssStage::Finished(Err(e)),
            },
            (OssStage::Fetching, OssEvent::Fetched(models)) => {
                let missing = match &models {
                    Ok(listed) => !lists_text(listed, &self.model),
                    Err(_) => false,
                };
                if missing {
                    OssStage::Downloading
                } else {
                    OssStage::Loading
                }
            },
            (OssStage::Downloading, OssEvent::Downloaded(r)) => match r {
                Ok(_) => OssStage::Loading,
                Err(e) => OssStage::Finished(Err(e)),
            },
            (OssStage::Loading, OssEvent::LoadSpawned) => OssStage::Finished(Ok(())),
            (stage, _) => stage,
        };
        OssSetup { model: self.model, client: self.client, stage }
    }

    /// Whether the model is ready, once that is known.
    pub fn result(self) -> (r: Option<Result<(), ClientError>>)
        ensures
            match self@.stage {
                OssStageView::Finished(end) => r matches Some(got) && outcome(got) == end,
                _ => r is None,
            },
    {
        match self.stage {
            OssStage::Finished(r) => Some(r),
            _ => None,
        }
    }
}

/// What the work comes to, from what its parts come to: a failure to bring the
/// server up or to download a missing model is reported, a failure to list the
/// models is not.
pub open spec fn readiness(
    model: Seq<char>,
    server: Result<(), ErrorView>,
    models: Result<Seq<Seq<char>>, ErrorView>,
    download: Result<(), ErrorView>,
) -> Result<(), ErrorView> {
    match server {
        Err(e) => Err(e),
        Ok(_) => if needs_download(model, models) {
            download
        } else {
            Ok(())
        },
    }
}

/// The answers to all actions, in the order of the actions.
pub open spec fn answers(
    server: Result<(), ErrorView>,
    models: Result<Seq<Seq<char>>, ErrorView>,
    download: Result<(), ErrorView>,
) -> Seq<OssEventView> {
    seq![
        OssEventView::ServerRunning(server),
        OssEventView::Fetched(models),
        OssEventView::Downloaded(download),
        OssEventView::LoadSpawned,
    ]
}

/// Work from the beginning comes to what its parts come to.
pub proof fn law_readiness(
    setup: OssView,
    server: Result<(), ErrorView>,
    models: Result<Seq<Seq<char>>, ErrorView>,
    download: Result<(), ErrorView>,
)
    requires
        setup.stage == OssStageView::EnsuringServer,
    ensures
        setup.run(answers(server, models, download)).stage == OssStageView::Finished(
            readiness(setup.model, server, models, download),
        ),
{
    let events = answers(server, models, download);
    let s1 = setup.next(events[0]);
    let s2 = s1.next(events[1]);
    let s3 = s2.next(events[2]);
    let s4 = s3.next(events[3]);
    let e1 = events.drop_first();
    let e2 = e1.drop_first();
    let e3 = e2.drop_first();
    let e4 = e3.drop_first();
    assert(setup.run(events) == s1.run(e1));
    assert(s1.run(e1) == s2.run(e2));
    assert(s2.run(e2) == s3.run(e3));
    assert(s3.run(e3) == s4.run(e4));
    assert(s4.run(e4) == s4);
    if download is Ok {
        assert(download->Ok_0 == ());
    }
}

/// A model is downloaded only where the server runs and lists its models without
/// it.
pub proof fn law_download_only_where_missing(setup: OssView, event: OssEventView)
    requires
        setup.action() != Some(OssAction::DownloadModel),
        setup.next(event).action() == Some(OssAction::DownloadModel),
    ensures
        setup.action() == Some(OssAction::FetchModels),
        event matches OssEventView::Fetched(Ok(listed)) && !lists(listed, setup.model),
{
}

/// What is over stays as it is, with the same model and the same server.
pub proof fn law_finished_stays(setup: OssView, events: Seq<OssEventView>)
    requires
        setup.stage is Finished,
    ensures
        setup.run(events) == setup,
    decreases events.len(),
{
    if events.len() > 0 {
        assert(setup.next(events[0]) == setup);
        law_finished_stays(setup, events.drop_first());
    }
}

/// No event changes the model or the server.
pub proof fn law_model_and_server_stay(setup: OssView, events: Seq<OssEventView>)
    ensures
        setup.run(events).model == setup.model,
        setup.run(events).base == setup.base,
    decreases events.len(),
{
    if events.len() > 0 {
        law_model_and_server_stay(setup.next(events[0]), events.drop_first());
    }
}

/// Success is reported only after loading was begun.
pub proof fn law_success_means_loading(setup: OssView, event: OssEventView)
    requires
        !(setup.stage is Finished),
        setup.next(event).stage == OssStageView::Finished(Ok(())),
    ensures
        setup.action() == Some(OssAction::SpawnLoad),
        event == OssEventView::LoadSpawned,
{
}

/// The model is the one that was asked for, whatever its name, and only where none
/// was asked for the default one.
pub proof fn law_model_is_the_wanted_one(wanted: Seq<char>)
    ensures
        chosen_model(Some(wanted)) == wanted,
        chosen_model(None) == "Qwen3-30B-A3B-Instruct-2507-GGUF"@,
{
}

/// Once the models are listed, the model is downloaded next if none of those listed
/// is the model, be the list empty or not, and loaded next if one of them is; where
/// they could not be listed it is loaded next.
pub proof fn law_missing_model_is_downloaded(setup: OssView, models: Models)
    requires
        setup.action() == Some(OssAction::FetchModels),
    ensures
        models matches Ok(listed) ==> (forall|i: int|
            0 <= i < listed@.len() ==> #[trigger] listed@[i]@ != setup.model) ==> setup.next(
            OssEvent::Fetched(models)@,
        ).action() == Some(OssAction::DownloadModel),
        models matches Ok(listed) ==> (exists|i: int|
            0 <= i < listed@.len() && #[trigger] listed@[i]@ == setup.model) ==> setup.next(
            OssEvent::Fetched(models)@,
        ).action() == Some(OssAction::SpawnLoad),
        models is Err ==> setup.next(OssEvent::Fetched(models)@).action() == Some(
            OssAction::SpawnLoad,
        ),
{
    if let Ok(listed) = models {
        law_texts_are_those_of_the_strings(listed@, setup.model);
    }
}

/// The same of a list of names: the model is downloaded next if and only if the
/// list does not contain it.
pub proof fn law_unlisted_model_is_downloaded(setup: OssView, listed: Seq<Seq<char>>)
    requires
        setup.action() == Some(OssAction::FetchModels),
    ensures
        setup.next(OssEventView::Fetched(Ok(listed))).action() == Some(OssAction::DownloadModel)
            <==> !listed.contains(setup.model),
        setup.next(OssEventView::Fetched(Ok(listed))).action() == Some(OssAction::SpawnLoad)
            <==> listed.contains(setup.model),
{
}

/// A server that runs is asked for its models, a model that was downloaded is
/// loaded, and once its loading is under way all is done.
pub proof fn law_work_goes_on(setup: OssView)
    ensures
        setup.action() == Some(OssAction::EnsureServerRunning) ==> setup.next(
            OssEvent::ServerRunning(Ok(()))@,
        ).action() == Some(OssAction::FetchModels),
        setup.action() == Some(OssAction::DownloadModel) ==> setup.next(
            OssEvent::Downloaded(Ok(()))@,
        ).action() == Some(OssAction::SpawnLoad),
        setup.action() == Some(OssAction::SpawnLoad) ==> setup.next(OssEvent::LoadSpawned@).stage
            == OssStageView::Finished(Ok(())),
        setup.stage == OssStageView::EnsuringServer ==> setup.action() == Some(
            OssAction::EnsureServerRunning,
        ),
{
}

/// A server that cannot be brought up, or a download that fails, for whatever
/// reason, ends it all with that very failure.
pub proof fn law_failures_end_the_work(setup: OssView, error: ClientError)
    ensures
        setup.action() == Some(OssAction::EnsureServerRunning) ==> (setup.next(
            OssEvent::ServerRunning(Err(error))@,
        ).stage matches OssStageView::Finished(Err(e)) && e.kind == error.kind && e.message
            == error.message@),
        setup.action() == Some(OssAction::DownloadModel) ==> (setup.next(
            OssEvent::Downloaded(Err(error))@,
        ).stage matches OssStageView::Finished(Err(e)) && e.kind == error.kind && e.message
            == error.message@),
{
}

/// There is something to do until it is over, and an event that is no answer to
/// what is to be done changes nothing.
pub proof fn law_only_answers_count(setup: OssView, event: OssEvent)
    ensures
        setup.action() is None <==> setup.stage is Finished,
        setup.next(event@) != setup <==> match setup.action() {
            Some(OssAction::EnsureServerRunning) => event is ServerRunning,
            Some(OssAction::FetchModels) => event is Fetched,
            Some(OssAction::DownloadModel) => event is Downloaded,
            Some(OssAction::SpawnLoad) => event is LoadSpawned,
            None => false,
        },
{
}

/// A run of events ends where its last event leads.
pub proof fn law_runs_end_with_their_last_event(
    setup: OssView,
    events: Seq<OssEventView>,
    event: OssEventView,
)
    ensures
        setup.run(Seq::empty()) == setup,
        setup.run(events.push(event)) == setup.run(events).next(event),
    decreases events.len(),
{
    let all = events.push(event);
    if events.len() == 0 {
        assert(all.drop_first() == Seq::<OssEventView>::empty());
        assert(setup.next(event).run(all.drop_first()) == setup.next(event));
    } else {
        law_runs_end_with_their_last_event(setup.next(events[0]), events.drop_first(), event);
        assert(all.drop_first() == events.drop_first().push(event));
    }
}

} // verus!
