//! Which outputs a device shows pictures on, and which of them is captured.

use crate::kms::cpu_capture::ActiveOutput;
use vstd::prelude::*;

verus! {

/// Why no output could be chosen.
#[derive(Debug)]
pub enum OutputError {
    /// The device shows no pictures.
    NoActiveOutputs,
    /// No output has the name that was asked for; these are there.
    NotFound { name: String, available: Vec<String> },
}

/// `index` is the first place of an output with the given name.
pub open spec fn first_named(outputs: Seq<ActiveOutput>, name: Seq<char>, index: int) -> bool {
    &&& 0 <= index < outputs.len()
    &&& outputs[index].connector_name@ == name
    &&& forall|j: int| 0 <= j < index ==> (#[trigger] outputs[j]).connector_name@ != name
}

/// No output has the given name.
pub open spec fn none_named(outputs: Seq<ActiveOutput>, name: Seq<char>) -> bool {
    forall|j: int| 0 <= j < outputs.len() ==> (#[trigger] outputs[j]).connector_name@ != name
}

/// Finds the first output with the given name.
pub fn find_output(outputs: &Vec<ActiveOutput>, name: &str) -> (index: Option<usize>)
    ensures
        match index {
            Some(i) => first_named(outputs@, name@, i as int),
            None => none_named(outputs@, name@),
        },
{
    let wanted: String = name.to_owned();
    let mut i: usize = 0;
    while i < outputs.len()
        invariant
            i <= outputs@.len(),
            wanted@ == name@,
            forall|j: int| 0 <= j < i ==> (#[trigger] outputs@[j]).connector_name@ != name@,
        decreases outputs@.len() - i,
    {
        if outputs[i].connector_name == wanted {
            return Some(i);
        }
        i += 1;
    }
    None
}

/// Chooses the output to capture: the first one with the given name, or the first one at all if no
/// name is given.
pub fn select_output<'a>(outputs: &'a Vec<ActiveOutput>, output_name: Option<&str>) -> (selected:
    Result<&'a ActiveOutput, OutputError>)
    ensures
        match output_name {
            None => if outputs@.len() == 0 {
                selected matches Err(OutputError::NoActiveOutputs)
            } else {
                selected matches Ok(output) && *output == outputs@[0]
            },
            Some(name) => match selected {
                Ok(output) => exists|i: int|
                    #[trigger] first_named(outputs@, name@, i) && *output == outputs@[i],
                Err(OutputError::NotFound { name: missing, available }) => {
                    &&& none_named(outputs@, name@)
                    &&& missing@ == name@
                    &&& available@ == outputs@.map_values(|o: ActiveOutput| o.connector_name)
                },
                Err(OutputError::NoActiveOutputs) => false,
            },
        },
{
    match output_name {
        None => {
            if outputs.len() == 0 {
                Err(OutputError::NoActiveOutputs)
            } else {
                Ok(&outputs[0])
            }
        },
        Some(name) => match find_output(outputs, name) {
            Some(i) => Ok(&outputs[i]),
            None => Err(
                OutputError::NotFound { name: name.to_owned(), available: output_names(outputs) },
            ),
        },
    }
}

/// The names of the outputs, in order.
fn output_names(outputs: &Vec<ActiveOutput>) -> (names: Vec<String>)
    ensures
        names@ == outputs@.map_values(|o: ActiveOutput| o.connector_name),
{
    let mut names: Vec<String> = Vec::new();
    let mut i: usize = 0;
    while i < outputs.len()
        invariant
            i <= outputs@.len(),
            names@.len() == i,
            forall|j: int| 0 <= j < i ==> #[trigger] names@[j] == outputs@[j].connector_name,
        decreases outputs@.len() - i,
    {
        names.push(outputs[i].connector_name.clone());
        i += 1;
    }
    assert(names@ =~= outputs@.map_values(|o: ActiveOutput| o.connector_name));
    names
}

/// What the device tells of a display controller.
#[derive(Clone, Copy, Debug, PartialEq, Eq)]
pub struct CrtcInfo {
    /// Width and height of the picture, if there is one.
    pub mode: Option<(u16, u16)>,
    pub framebuffer: Option<u32>,
    pub position: (u32, u32),
}

/// What is to be asked next of the device.
#[derive(Debug)]
pub enum ProbeStep {
    AskConnector { connector: u32 },
    AskEncoder { encoder: u32, name: String },
    AskCrtc { crtc: u32, name: String },
    Finished,
}

/// A walk over the connectors of a device, which collects the outputs that show a picture.
#[derive(Debug)]
pub struct OutputProbe {
    pub connectors: Vec<u32>,
    pub next: usize,
    pub outputs: Vec<ActiveOutput>,
}

/// How far a walk over the connectors is.
pub struct ProbeView {
    pub connectors: Seq<u32>,
    pub next: int,
    pub outputs: Seq<ActiveOutput>,
}

/// The output of a connector whose chain leads to a display controller with a picture in a
/// framebuffer.
pub open spec fn output_of_crtc(name: String, crtc: u32, info: CrtcInfo) -> Option<ActiveOutput> {
    match (info.mode, info.framebuffer) {
        (Some(size), Some(fb)) => Some(
            ActiveOutput {
                connector_name: name,
                crtc_handle: crtc,
                x: info.position.0,
                y: info.position.1,
                width: size.0 as u32,
                height: size.1 as u32,
                fb_handle: fb,
            },
        ),
        _ => None,
    }
}

impl ProbeView {
    /// What comes once a connector is done with.
    pub open spec fn next_step(self) -> ProbeStep {
        if self.next < self.connectors.len() {
            ProbeStep::AskConnector { connector: self.connectors[self.next] }
        } else {
            ProbeStep::Finished
        }
    }

    /// What comes after the answer on a connector: its encoder, if it is connected and has one.
    pub open spec fn step_after_connector(
        self,
        name: String,
        connected: bool,
        encoder: Option<u32>,
    ) -> ProbeStep {
        match encoder {
            Some(encoder) if connected => ProbeStep::AskEncoder { encoder, name },
            _ => self.next_step(),
        }
    }

    /// What comes after the answer on an encoder: its display controller, if it has one.
    pub open spec fn step_after_encoder(self, name: String, crtc: Option<u32>) -> ProbeStep {
        match crtc {
            Some(crtc) => ProbeStep::AskCrtc { crtc, name },
            None => self.next_step(),
        }
    }

    /// The walk one connector further.
    pub open spec fn advanced(self) -> ProbeView {
        ProbeView { next: self.next + 1, ..self }
    }

    /// The walk with the output of a display controller, if it shows a picture.
    pub open spec fn with_crtc(self, name: String, crtc: u32, info: CrtcInfo) -> ProbeView {
        match output_of_crtc(name, crtc, info) {
            Some(output) => ProbeView { outputs: self.outputs.push(output), ..self },
            None => self,
        }
    }
}

impl View for OutputProbe {
    type V = ProbeView;

    open spec fn view(&self) -> ProbeView {
        ProbeView {
            connectors: self.connectors@,
            next: self.next as int,
            outputs: self.outputs@,
        }
    }
}

impl OutputProbe {
    /// Starts a walk over the given connectors.
    pub fn new(connectors: Vec<u32>) -> (probe: Self)
        ensures
            probe@ == (ProbeView {
                connectors: connectors@,
                next: 0,
                outputs: Seq::<ActiveOutput>::empty(),
            }),
    {
        OutputProbe { connectors, next: 0, outputs: Vec::new() }
    }

    /// What is to be asked when no connector is being looked at.
    pub fn next_step(&self) -> (step: ProbeStep)
        ensures
            step == self@.next_step(),
    {
        if self.next < self.connectors.len() {
            ProbeStep::AskConnector { connector: self.connectors[self.next] }
        } else {
            ProbeStep::Finished
        }
    }

    /// Takes in the answer on a connector.
    pub fn on_connector(&mut self, name: String, connected: bool, encoder: Option<u32>) -> (step:
        ProbeStep)
        requires
            old(self)@.next < old(self)@.connectors.len(),
        ensures
            final(self)@ == old(self)@.advanced(),
            step == final(self)@.step_after_connector(name, connected, encoder),
    {
        assert(self.next < self.connectors.len());
        self.next = self.next + 1;
        if connected {
            if let Some(encoder) = encoder {
                return ProbeStep::AskEncoder { encoder, name };
            }
        }
        self.next_step()
    }

    /// Takes in the answer on the encoder of a connector.
    pub fn on_encoder(&self, name: String, crtc: Option<u32>) -> (step: ProbeStep)
        ensures
            step == self@.step_after_encoder(name, crtc),
    {
        match crtc {
            Some(crtc) => ProbeStep::AskCrtc { crtc, name },
            None => self.next_step(),
        }
    }

    /// Takes in the answer on the display controller of a connector.
    pub fn on_crtc(&mut self, name: String, crtc: u32, info: CrtcInfo) -> (step: ProbeStep)
        ensures
            final(self)@ == old(self)@.with_crtc(name, crtc, info),
            step == final(self)@.next_step(),
    {
        if let Some((width, height)) = info.mode {
            if let Some(fb_handle) = info.framebuffer {
                self.outputs.push(
                    ActiveOutput {
                        connector_name: name,
                        crtc_handle: crtc,
                        x: info.position.0,
                        y: info.position.1,
                        width: width as u32,
                        height: height as u32,
                        fb_handle,
                    },
                );
            }
        }
        self.next_step()
    }
}

/// What a device answers on one connector, as far as it is asked.
pub struct ConnectorAnswers {
    pub name: String,
    pub connected: bool,
    pub encoder: Option<u32>,
    pub crtc: Option<u32>,
    pub info: CrtcInfo,
}

/// The walk after one connector on which the device gives these answers.
pub open spec fn after_connector(view: ProbeView, answers: ConnectorAnswers) -> ProbeView {
    let asked = view.advanced();
    match asked.step_after_connector(answers.name, answers.connected, answers.encoder) {
        ProbeStep::AskEncoder { encoder, name } => match asked.step_after_encoder(
            name,
            answers.crtc,
        ) {
            ProbeStep::AskCrtc { crtc, name } => asked.with_crtc(name, crtc, answers.info),
            _ => asked,
        },
        _ => asked,
    }
}

/// The walk after all connectors on which the device gives these answers.
pub open spec fn after_connectors(view: ProbeView, answers: Seq<ConnectorAnswers>) -> ProbeView
    decreases answers.len(),
{
    if answers.len() == 0 {
        view
    } else {
        after_connector(after_connectors(view, answers.drop_last()), answers.last())
    }
}

/// The output of a connector: there is one if the connector is connected, has an encoder, the
/// encoder a display controller, and the display controller a picture in a framebuffer.
pub open spec fn active_output(answers: ConnectorAnswers) -> Option<ActiveOutput> {
    match (answers.encoder, answers.crtc) {
        (Some(_), Some(crtc)) if answers.connected => output_of_crtc(
            answers.name,
            crtc,
            answers.info,
        ),
        _ => None,
    }
}

/// A probe finds the active outputs, in the order of their connectors, and nothing else.
pub proof fn law_probe_finds_the_active_outputs(
    connectors: Seq<u32>,
    answers: Seq<ConnectorAnswers>,
)
    requires
        answers.len() <= connectors.len(),
    ensures
        after_connectors(
            ProbeView { connectors, next: 0, outputs: Seq::empty() },
            answers,
        ) == (ProbeView {
            connectors,
            next: answers.len() as int,
            outputs: answers.filter_map(|a: ConnectorAnswers| active_output(a)),
        }),
    decreases answers.len(),
{
    let start = ProbeView { connectors, next: 0, outputs: Seq::<ActiveOutput>::empty() };
    let f = |a: ConnectorAnswers| active_output(a);
    if answers.len() == 0 {
        reveal(Seq::filter_map);
        assert(answers.filter_map(f) =~= Seq::<ActiveOutput>::empty());
    } else {
        let earlier = answers.drop_last();
        law_probe_finds_the_active_outputs(connectors, earlier);
        let before = after_connectors(start, earlier);
        let last = answers.last();
        reveal(Seq::filter_map);
        match f(last) {
            Some(output) => {
                assert(answers.filter_map(f) =~= earlier.filter_map(f) + seq![output]);
                assert(before.outputs.push(output) =~= earlier.filter_map(f) + seq![output]);
            },
            None => {
                assert(answers.filter_map(f) =~= earlier.filter_map(f));
            },
        }
    }
}

/// An output is active exactly if its connector is connected, every link of its chain is there, and
/// the last one shows a picture in a framebuffer. It is then described by what the device told: the
/// connector's name, the display controller with the position, size and framebuffer of its picture.
pub proof fn law_active_output_is_its_chain(answers: ConnectorAnswers)
    ensures
        active_output(answers) is Some <==> (answers.connected && answers.encoder is Some
            && answers.crtc is Some && answers.info.mode is Some && answers.info.framebuffer
            is Some),
        active_output(answers) matches Some(output) ==> {
            &&& output.connector_name == answers.name
            &&& Some(output.crtc_handle) == answers.crtc
            &&& output.x == answers.info.position.0
            &&& output.y == answers.info.position.1
            &&& output.width == (answers.info.mode->0).0
            &&& output.height == (answers.info.mode->0).1
            &&& Some(output.fb_handle) == answers.info.framebuffer
        },
{
}

/// The first output of a name is the only first one: no output before it has the name, and there is
/// none exactly if no output has the name.
pub proof fn law_first_output_of_a_name_is_unique(
    outputs: Seq<ActiveOutput>,
    name: Seq<char>,
    i: int,
    k: int,
)
    requires
        first_named(outputs, name, i),
        0 <= k < outputs.len(),
        outputs[k].connector_name@ == name,
    ensures
        0 <= i <= k,
        outputs[i].connector_name@ == name,
        !none_named(outputs, name),
{
}

/// A probe asks what it has to, of every connector: a connector is always asked about; its encoder
/// only if it is connected and names one; the display controller only if the encoder names one. What
/// is asked next carries the connector's name on, and a walk that is done asks nothing.
pub proof fn law_probe_follows_the_chain(
    view: ProbeView,
    name: String,
    connected: bool,
    encoder: Option<u32>,
    crtc: Option<u32>,
)
    requires
        0 <= view.next <= view.connectors.len(),
    ensures
        view.next_step() is Finished <==> view.next == view.connectors.len(),
        view.next_step() matches ProbeStep::AskConnector { connector } ==> connector
            == view.connectors[view.next],
        view.step_after_connector(name, connected, encoder) matches ProbeStep::AskEncoder {
            encoder: asked,
            name: carried,
        } ==> connected && encoder == Some(asked) && carried == name,
        connected && encoder is Some ==> view.step_after_connector(name, connected, encoder)
            is AskEncoder,
        view.step_after_encoder(name, crtc) matches ProbeStep::AskCrtc {
            crtc: asked,
            name: carried,
        } ==> crtc == Some(asked) && carried == name,
        crtc is Some ==> view.step_after_encoder(name, crtc) is AskCrtc,
        !(connected && encoder is Some) ==> view.step_after_connector(name, connected, encoder)
            == view.next_step(),
        crtc is None ==> view.step_after_encoder(name, crtc) == view.next_step(),
{
}

} // verus!
