//! Resolves an application name to the audio stream to capture.
//!
//! Only applications that play audio have a stream on the audio graph, so
//! resolution is a snapshot of what is audible right now.
use serde_json::Value;
use vstd::prelude::*;
use vstd::string::*;

use crate::seqs;
use crate::sorting;
use crate::text;

verus! {

/// One application playback stream that is live on the audio graph.
#[derive(Debug, PartialEq, Eq)]
pub struct AudioApplication {
    /// The serial of the stream, usable as a capture target.
    pub serial: u64,
    /// The advertised name of the application, or the name of the stream.
    pub label: String,
    /// The binary of the process, where it is known.
    pub binary: Option<String>,
}

/// What a [`AudioApplication`] holds.
#[verifier::ext_equal]
pub struct AudioApplicationView {
    pub serial: u64,
    pub label: Seq<char>,
    pub binary: Option<Seq<char>>,
}

impl View for AudioApplication {
    type V = AudioApplicationView;

    open spec fn view(&self) -> AudioApplicationView {
        AudioApplicationView {
            serial: self.serial,
            label: self.label@,
            binary: self.binary.deep_view(),
        }
    }
}

impl DeepView for AudioApplication {
    type V = AudioApplicationView;

    open spec fn deep_view(&self) -> AudioApplicationView {
        self@
    }
}

impl Clone for AudioApplication {
    fn clone(&self) -> (r: Self)
        ensures
            r@ == self@,
    {
        let r = AudioApplication {
            serial: self.serial,
            label: self.label.clone(),
            binary: self.binary.clone(),
        };
        r
    }
}

/// Why an application could not be resolved.
#[derive(Debug, PartialEq, Eq)]
pub enum AudioAppError {
    /// The audio graph could not be inspected.
    Unavailable(String),
    /// Nobody of that name plays audio.
    NotFound {
        name: String,
        available: Vec<String>,
    },
    /// Several applications go by that name.
    Ambiguous {
        name: String,
        matches: Vec<String>,
    },
}

/// What a [`AudioAppError`] holds.
#[verifier::ext_equal]
pub enum AudioAppErrorView {
    Unavailable(Seq<char>),
    NotFound { name: Seq<char>, available: Seq<Seq<char>> },
    Ambiguous { name: Seq<char>, matches: Seq<Seq<char>> },
}

impl View for AudioAppError {
    type V = AudioAppErrorView;

    open spec fn view(&self) -> AudioAppErrorView {
        match self {
            AudioAppError::Unavailable(first) => AudioAppErrorView::Unavailable(first@),
            AudioAppError::NotFound { name, available } => AudioAppErrorView::NotFound {
                name: name@,
                available: available.deep_view(),
            },
            AudioAppError::Ambiguous { name, matches } => AudioAppErrorView::Ambiguous {
                name: name@,
                matches: matches.deep_view(),
            },
        }
    }
}

impl DeepView for AudioAppError {
    type V = AudioAppErrorView;

    open spec fn deep_view(&self) -> AudioAppErrorView {
        self@
    }
}

impl Clone for AudioAppError {
    fn clone(&self) -> (r: Self)
        ensures
            r@ == self@,
    {
        match self {
            AudioAppError::Unavailable(first) => AudioAppError::Unavailable(first.clone()),
            AudioAppError::NotFound { name, available } => {
                let available_copy = available.clone();
                assert(available_copy.deep_view() =~= available.deep_view());
                AudioAppError::NotFound {
                    name: name.clone(),
                    available: available_copy,
                }
            },
            AudioAppError::Ambiguous { name, matches } => {
                let matches_copy = matches.clone();
                assert(matches_copy.deep_view() =~= matches.deep_view());
                AudioAppError::Ambiguous {
                    name: name.clone(),
                    matches: matches_copy,
                }
            },
        }
    }
}

/// How an exclusion that matches no stream is treated.
#[derive(Debug, Clone, Copy, PartialEq, Eq, Structural)]
pub enum MissingExclusion {
    /// For names that a person typed: a typo must not share what it was meant to
    /// remove.
    Reject,
    /// For built-in exclusions: an idle application excludes nothing.
    Ignore,
}

impl DeepView for MissingExclusion {
    type V = MissingExclusion;

    open spec fn deep_view(&self) -> MissingExclusion {
        *self
    }
}

/// Why a share carries no audio.
#[derive(Debug, PartialEq, Eq)]
pub enum NoAudioReason {
    /// Only excluded applications play.
    OnlyExcludedPlaying,
    /// Nothing plays audio at all.
    NothingPlaying,
    /// The graph could not be inspected, so exclusions cannot be honoured.
    GraphUnreadable(String),
}

/// What a [`NoAudioReason`] holds.
#[verifier::ext_equal]
pub enum NoAudioReasonView {
    OnlyExcludedPlaying,
    NothingPlaying,
    GraphUnreadable(Seq<char>),
}

impl View for NoAudioReason {
    type V = NoAudioReasonView;

    open spec fn view(&self) -> NoAudioReasonView {
        match self {
            NoAudioReason::OnlyExcludedPlaying => NoAudioReasonView::OnlyExcludedPlaying,
            NoAudioReason::NothingPlaying => NoAudioReasonView::NothingPlaying,
            NoAudioReason::GraphUnreadable(first) => NoAudioReasonView::GraphUnreadable(first@),
        }
    }
}

impl DeepView for NoAudioReason {
    type V = NoAudioReasonView;

    open spec fn deep_view(&self) -> NoAudioReasonView {
        self@
    }
}

impl Clone for NoAudioReason {
    fn clone(&self) -> (r: Self)
        ensures
            r@ == self@,
    {
        match self {
            NoAudioReason::OnlyExcludedPlaying => NoAudioReason::OnlyExcludedPlaying,
            NoAudioReason::NothingPlaying => NoAudioReason::NothingPlaying,
            NoAudioReason::GraphUnreadable(first) => NoAudioReason::GraphUnreadable(first.clone()),
        }
    }
}

/// What a share without an explicit choice of audio carries.
///
/// What plays is captured stream by stream, never as the mix of the device, so
/// an excluded application that starts later is out of reach.
#[derive(Debug, PartialEq, Eq)]
pub enum DefaultAudioDecision {
    /// Capture exactly the streams of these applications.
    Share(Vec<AudioApplication>),
    /// Share without audio.
    NoAudio(NoAudioReason),
}

/// What a [`DefaultAudioDecision`] holds.
#[verifier::ext_equal]
pub enum DefaultAudioDecisionView {
    Share(Seq<AudioApplicationView>),
    NoAudio(NoAudioReasonView),
}

impl View for DefaultAudioDecision {
    type V = DefaultAudioDecisionView;

    open spec fn view(&self) -> DefaultAudioDecisionView {
        match self {
            DefaultAudioDecision::Share(first) => DefaultAudioDecisionView::Share(first.deep_view()),
            DefaultAudioDecision::NoAudio(first) => DefaultAudioDecisionView::NoAudio(first@),
        }
    }
}

impl DeepView for DefaultAudioDecision {
    type V = DefaultAudioDecisionView;

    open spec fn deep_view(&self) -> DefaultAudioDecisionView {
        self@
    }
}

impl Clone for DefaultAudioDecision {
    fn clone(&self) -> (r: Self)
        ensures
            r@ == self@,
    {
        match self {
            DefaultAudioDecision::Share(first) => {
                let first_copy = first.clone();
                assert(first_copy.deep_view() =~= first.deep_view());
                DefaultAudioDecision::Share(first_copy)
            },
            DefaultAudioDecision::NoAudio(first) => DefaultAudioDecision::NoAudio(first.clone()),
        }
    }
}

/// What is read of one object of the audio graph.
#[derive(Debug, PartialEq, Eq)]
pub struct GraphObject {
    pub kind: Option<String>,
    pub media_class: Option<String>,
    pub serial: Option<u64>,
    pub application_name: Option<String>,
    pub binary: Option<String>,
    pub node_name: Option<String>,
}

/// What a [`GraphObject`] holds.
#[verifier::ext_equal]
pub struct GraphObjectView {
    pub kind: Option<Seq<char>>,
    pub media_class: Option<Seq<char>>,
    pub serial: Option<u64>,
    pub application_name: Option<Seq<char>>,
    pub binary: Option<Seq<char>>,
    pub node_name: Option<Seq<char>>,
}

impl View for GraphObject {
    type V = GraphObjectView;

    open spec fn view(&self) -> GraphObjectView {
        GraphObjectView {
            kind: self.kind.deep_view(),
            media_class: self.media_class.deep_view(),
            serial: self.serial,
            application_name: self.application_name.deep_view(),
            binary: self.binary.deep_view(),
            node_name: self.node_name.deep_view(),
        }
    }
}

impl DeepView for GraphObject {
    type V = GraphObjectView;

    open spec fn deep_view(&self) -> GraphObjectView {
        self@
    }
}

impl Clone for GraphObject {
    fn clone(&self) -> (r: Self)
        ensures
            r@ == self@,
    {
        let r = GraphObject {
            kind: self.kind.clone(),
            media_class: self.media_class.clone(),
            serial: self.serial,
            application_name: self.application_name.clone(),
            binary: self.binary.clone(),
            node_name: self.node_name.clone(),
        };
        r
    }
}

/// One stream that plays audio.
#[derive(Debug, PartialEq, Eq)]
pub struct PlaybackStream {
    pub serial: u64,
    pub application_name: Option<String>,
    pub binary: Option<String>,
    pub node_name: Option<String>,
}

/// What a [`PlaybackStream`] holds.
#[verifier::ext_equal]
pub struct PlaybackStreamView {
    pub serial: u64,
    pub application_name: Option<Seq<char>>,
    pub binary: Option<Seq<char>>,
    pub node_name: Option<Seq<char>>,
}

impl View for PlaybackStream {
    type V = PlaybackStreamView;

    open spec fn view(&self) -> PlaybackStreamView {
        PlaybackStreamView {
            serial: self.serial,
            application_name: self.application_name.deep_view(),
            binary: self.binary.deep_view(),
            node_name: self.node_name.deep_view(),
        }
    }
}

impl DeepView for PlaybackStream {
    type V = PlaybackStreamView;

    open spec fn deep_view(&self) -> PlaybackStreamView {
        self@
    }
}

impl Clone for PlaybackStream {
    fn clone(&self) -> (r: Self)
        ensures
            r@ == self@,
    {
        let r = PlaybackStream {
            serial: self.serial,
            application_name: self.application_name.clone(),
            binary: self.binary.clone(),
            node_name: self.node_name.clone(),
        };
        r
    }
}

/// What came of dumping the audio graph.
#[derive(Debug, PartialEq, Eq)]
pub enum DumpOutput {
    /// The dump could not be run.
    Failed {
        error: String,
    },
    /// The dump ended with this status and printed this.
    Exited {
        success: bool,
        status: String,
        stdout: Vec<u8>,
    },
}

/// What a [`DumpOutput`] holds.
#[verifier::ext_equal]
pub enum DumpOutputView {
    Failed { error: Seq<char> },
    Exited { success: bool, status: Seq<char>, stdout: Seq<u8> },
}

impl View for DumpOutput {
    type V = DumpOutputView;

    open spec fn view(&self) -> DumpOutputView {
        match self {
            DumpOutput::Failed { error } => DumpOutputView::Failed {
                error: error@,
            },
            DumpOutput::Exited { success, status, stdout } => DumpOutputView::Exited {
                success: *success,
                status: status@,
                stdout: stdout@,
            },
        }
    }
}

impl DeepView for DumpOutput {
    type V = DumpOutputView;

    open spec fn deep_view(&self) -> DumpOutputView {
        self@
    }
}

impl Clone for DumpOutput {
    fn clone(&self) -> (r: Self)
        ensures
            r@ == self@,
    {
        match self {
            DumpOutput::Failed { error } => DumpOutput::Failed {
                error: error.clone(),
            },
            DumpOutput::Exited { success, status, stdout } => DumpOutput::Exited {
                success: *success,
                status: status.clone(),
                stdout: stdout.clone(),
            },
        }
    }
}

/// What stands at a place of a JSON document.
pub enum JsonLeaf {
    Text(Seq<char>),
    Number(u64),
    Array(nat),
}

/// A JSON document.
#[verifier::external_type_specification]
#[verifier::external_body]
pub struct ExJsonValue(serde_json::Value);

/// The texts, the unsigned numbers and the sizes of the arrays of a JSON
/// document, by the JSON pointers to them.
pub uninterp spec fn json_leaves(document: Value) -> Map<Seq<char>, JsonLeaf>;

/// What the bytes of a JSON document hold, or why they are none.
pub uninterp spec fn json_parsed(bytes: Seq<u8>) -> Result<Map<Seq<char>, JsonLeaf>, Seq<char>>;

/// The text at a place.
pub open spec fn text_in(leaves: Map<Seq<char>, JsonLeaf>, pointer: Seq<char>) -> Option<Seq<char>> {
    if leaves.dom().contains(pointer) {
        match leaves[pointer] {
            JsonLeaf::Text(text) => Some(text),
            _ => None,
        }
    } else {
        None
    }
}

/// The unsigned number at a place.
pub open spec fn number_in(leaves: Map<Seq<char>, JsonLeaf>, pointer: Seq<char>) -> Option<u64> {
    if leaves.dom().contains(pointer) {
        match leaves[pointer] {
            JsonLeaf::Number(number) => Some(number),
            _ => None,
        }
    } else {
        None
    }
}

/// The size of the array at a place; nothing else has one.
pub open spec fn size_in(leaves: Map<Seq<char>, JsonLeaf>, pointer: Seq<char>) -> nat {
    if leaves.dom().contains(pointer) {
        match leaves[pointer] {
            JsonLeaf::Array(size) => size,
            _ => 0,
        }
    } else {
        0
    }
}

/// `serde_json::from_slice`: the document that the bytes are the text of, or
/// the message of the error. Both are functions of the bytes.
#[verifier::external_body]
fn parse_json(bytes: &[u8]) -> (r: Result<Value, String>)
    ensures
        match r {
            Ok(document) => json_parsed(bytes@) == Ok::<_, Seq<char>>(json_leaves(document)),
            Err(message) => json_parsed(bytes@) == Err::<Map<Seq<char>, JsonLeaf>, _>(message@),
        },
{
    serde_json::from_slice(bytes).map_err(|error| error.to_string())
}

/// `Value::pointer`, then `Value::as_str`: the text at a place.
#[verifier::external_body]
fn json_text(document: &Value, pointer: &str) -> (r: Option<String>)
    ensures
        r.deep_view() == text_in(json_leaves(*document), pointer@),
{
    Some(document.pointer(pointer)?.as_str()?.to_owned())
}

/// `Value::pointer`, then `Value::as_u64`: the unsigned number at a place.
#[verifier::external_body]
fn json_number(document: &Value, pointer: &str) -> (r: Option<u64>)
    ensures
        r == number_in(json_leaves(*document), pointer@),
{
    document.pointer(pointer)?.as_u64()
}

/// `Value::pointer`, then `Value::as_array`: the size of the array at a place,
/// or `None` where there is no array.
#[verifier::external_body]
fn json_size(document: &Value, pointer: &str) -> (r: Option<usize>)
    ensures
        match r {
            Some(size) => size == size_in(json_leaves(*document), pointer@),
            None => size_in(json_leaves(*document), pointer@) == 0,
        },
{
    Some(document.pointer(pointer)?.as_array()?.len())
}

/// The place of a field of one object of the graph.
pub open spec fn place(object: nat, field: Seq<char>) -> Seq<char> {
    "/"@ + text::decimal(object) + field
}

/// One object of the graph.
pub open spec fn object_in(leaves: Map<Seq<char>, JsonLeaf>, object: nat) -> GraphObjectView {
    GraphObjectView {
        kind: text_in(leaves, place(object, "/type"@)),
        media_class: text_in(leaves, place(object, "/info/props/media.class"@)),
        serial: number_in(leaves, place(object, "/info/props/object.serial"@)),
        application_name: text_in(leaves, place(object, "/info/props/application.name"@)),
        binary: text_in(leaves, place(object, "/info/props/application.process.binary"@)),
        node_name: text_in(leaves, place(object, "/info/props/node.name"@)),
    }
}

/// The objects of a graph.
pub open spec fn objects_in(leaves: Map<Seq<char>, JsonLeaf>) -> Seq<GraphObjectView> {
    Seq::new(size_in(leaves, ""@), |i: int| object_in(leaves, i as nat))
}

/// Whether an object is a stream that plays audio.
pub open spec fn plays(object: GraphObjectView) -> bool {
    &&& object.kind == Some("PipeWire:Interface:Node"@)
    &&& object.media_class == Some("Stream/Output/Audio"@)
    &&& object.serial is Some
}

/// The stream that an object is.
pub open spec fn stream_of(object: GraphObjectView) -> PlaybackStreamView {
    PlaybackStreamView {
        serial: object.serial->0,
        application_name: object.application_name,
        binary: object.binary,
        node_name: object.node_name,
    }
}

/// The streams of a graph that play audio, in order.
pub open spec fn streams_in(objects: Seq<GraphObjectView>) -> Seq<PlaybackStreamView> {
    objects.filter(|object: GraphObjectView| plays(object)).map_values(
        |object: GraphObjectView| stream_of(object),
    )
}

/// The streams of a document that play audio, in order.
pub open spec fn streams_of(leaves: Map<Seq<char>, JsonLeaf>) -> Seq<PlaybackStreamView> {
    streams_in(objects_in(leaves))
}

/// Nothing, or one thing.
pub open spec fn at_most_one<A>(thing: Option<A>) -> Seq<A> {
    match thing {
        Some(thing) => seq![thing],
        None => Seq::empty(),
    }
}

/// What a stream goes by.
pub open spec fn terms(stream: PlaybackStreamView) -> Seq<Seq<char>> {
    at_most_one(stream.application_name) + at_most_one(stream.binary) + at_most_one(
        stream.node_name,
    )
}

/// Whether a stream goes by something that contains a name, whatever the case.
pub open spec fn goes_by(stream: PlaybackStreamView, name: Seq<char>) -> bool {
    exists|i: int|
        0 <= i < terms(stream).len() && text::occurs(
            text::lowercase_of(name),
            text::lowercase_of(#[trigger] terms(stream)[i]),
        )
}

/// Whether a stream goes by something that contains a name, whatever the case of
/// ASCII letters.
pub open spec fn goes_by_ascii(stream: PlaybackStreamView, name: Seq<char>) -> bool {
    exists|i: int|
        0 <= i < terms(stream).len() && text::occurs(
            text::ascii_lowered(name),
            text::ascii_lowered(#[trigger] terms(stream)[i]),
        )
}

/// Whether all that a stream goes by is ASCII text.
pub open spec fn ascii_terms(stream: PlaybackStreamView) -> bool {
    forall|i: int|
        0 <= i < terms(stream).len() ==> vstd::utf8::is_ascii_chars(#[trigger] terms(stream)[i])
}

/// Whether a stream goes by one of several names.
pub open spec fn goes_by_any(stream: PlaybackStreamView, names: Seq<Seq<char>>) -> bool {
    exists|i: int| 0 <= i < names.len() && goes_by(stream, #[trigger] names[i])
}

/// The application of a stream.
pub open spec fn application(stream: PlaybackStreamView) -> AudioApplicationView {
    AudioApplicationView {
        serial: stream.serial,
        label: match stream.application_name {
            Some(name) => name,
            None => match stream.node_name {
                Some(name) => name,
                None => "unnamed"@,
            },
        },
        binary: stream.binary,
    }
}

/// How an application is shown: with its binary, where that adds information.
pub open spec fn shown(app: AudioApplicationView) -> Seq<char> {
    match app.binary {
        Some(binary) => if text::same_ascii(app.label, binary) {
            app.label
        } else {
            app.label + " ("@ + binary + ")"@
        },
        None => app.label,
    }
}

/// How the applications of several streams are shown.
pub open spec fn shown_all(streams: Seq<PlaybackStreamView>) -> Seq<Seq<char>> {
    streams.map_values(|s: PlaybackStreamView| shown(application(s)))
}

/// What there is to choose from: each application once, in order.
pub open spec fn available(streams: Seq<PlaybackStreamView>) -> Seq<Seq<char>> {
    seqs::deduped(sorting::sorted(shown_all(streams)))
}

/// One entry for each way that an application is shown, the first stream of
/// each.
pub open spec fn applications(streams: Seq<PlaybackStreamView>) -> Seq<AudioApplicationView>
    decreases streams.len(),
{
    if streams.len() == 0 {
        Seq::empty()
    } else {
        let before = applications(streams.drop_last());
        let app = application(streams.last());
        if exists|i: int| 0 <= i < before.len() && shown(#[trigger] before[i]) == shown(app) {
            before
        } else {
            before.push(app)
        }
    }
}

/// The streams that go by a name.
pub open spec fn named(name: Seq<char>) -> spec_fn(PlaybackStreamView) -> bool {
    |s: PlaybackStreamView| goes_by(s, name)
}

/// The streams that go by none of several names.
pub open spec fn spared(names: Seq<Seq<char>>) -> spec_fn(PlaybackStreamView) -> bool {
    |s: PlaybackStreamView| !goes_by_any(s, names)
}

/// The names that no stream goes by.
pub open spec fn unheard(streams: Seq<PlaybackStreamView>) -> spec_fn(Seq<char>) -> bool {
    |name: Seq<char>|
        forall|i: int| 0 <= i < streams.len() ==> !goes_by(#[trigger] streams[i], name)
}

/// The applications of the streams that no exclusion matches.
pub open spec fn kept(streams: Seq<PlaybackStreamView>, excluded: Seq<Seq<char>>) -> Seq<
    AudioApplicationView,
> {
    streams.filter(spared(excluded)).map_values(|s: PlaybackStreamView| application(s))
}

/// What is left of the streams without the excluded applications. An exclusion
/// that no stream goes by is an error where it was typed by a person.
pub open spec fn without(
    streams: Seq<PlaybackStreamView>,
    excluded: Seq<Seq<char>>,
    missing: MissingExclusion,
) -> Result<Seq<AudioApplicationView>, AudioAppErrorView> {
    match seqs::first_where(excluded, unheard(streams)) {
        Some(i) if missing == MissingExclusion::Reject => Err(
            AudioAppErrorView::NotFound { name: excluded[i], available: available(streams) },
        ),
        _ => Ok(kept(streams, excluded)),
    }
}

/// The one application that goes by a name. Several streams of one application
/// stand for its first.
pub open spec fn resolved(streams: Seq<PlaybackStreamView>, name: Seq<char>) -> Result<
    AudioApplicationView,
    AudioAppErrorView,
> {
    let matches = streams.filter(named(name));
    let labels = seqs::deduped(shown_all(matches));
    if matches.len() == 0 {
        Err(AudioAppErrorView::NotFound { name, available: available(streams) })
    } else if labels.len() == 1 {
        Ok(application(matches[0]))
    } else {
        Err(AudioAppErrorView::Ambiguous { name, matches: labels })
    }
}

/// What a share without an explicit choice carries.
pub open spec fn decided(
    streams: Seq<PlaybackStreamView>,
    excluded: Seq<Seq<char>>,
) -> DefaultAudioDecisionView {
    if kept(streams, excluded).len() > 0 {
        DefaultAudioDecisionView::Share(kept(streams, excluded))
    } else if streams.len() == 0 {
        DefaultAudioDecisionView::NoAudio(NoAudioReasonView::NothingPlaying)
    } else {
        DefaultAudioDecisionView::NoAudio(NoAudioReasonView::OnlyExcludedPlaying)
    }
}

/// What a dump of the graph holds, or why it is unavailable.
pub open spec fn dumped(output: DumpOutputView) -> Result<Map<Seq<char>, JsonLeaf>, Seq<char>> {
    match output {
        DumpOutputView::Failed { error } => Err(error),
        DumpOutputView::Exited { success, status, stdout } => if success {
            json_parsed(stdout)
        } else {
            Err("pw-dump exited with "@ + status)
        },
    }
}

/// The message of an error.
pub open spec fn message_of(error: AudioAppErrorView) -> Seq<char> {
    match error {
        AudioAppErrorView::Unavailable(reason) =>
            "the audio graph could not be inspected (is PipeWire running?): "@ + reason,
        AudioAppErrorView::NotFound { name, available } => "no application matching \""@ + name
            + "\" is playing audio right now"@ + hint(available),
        AudioAppErrorView::Ambiguous { name, matches } => "\""@ + name
            + "\" matches several applications: "@ + text::joined(matches, ", "@)
            + "; be more specific"@,
    }
}

/// What there is to choose from, in words.
pub open spec fn hint(available: Seq<Seq<char>>) -> Seq<char> {
    if available.len() == 0 {
        "; nothing is playing audio"@
    } else {
        "; currently playing: "@ + text::joined(available, ", "@)
    }
}

/// The voice-chat applications that are kept out of a shared mix unless the
/// presenter asks for them.
pub fn default_excluded() -> (r: Vec<String>)
    ensures
        r.deep_view() == seq!["discord"@],
{
    let mut r: Vec<String> = Vec::new();
    r.push("discord".to_owned());
    assert(r.deep_view() =~= seq!["discord"@]);
    r
}

impl AudioApplication {
    /// The name to show a person, including the binary when it adds
    /// information.
    pub fn display_name(&self) -> (r: String)
        ensures
            r@ == shown(self@),
    {
        match &self.binary {
            Some(binary) => {
                if text::is_same_ascii(self.label.as_str(), binary.as_str()) {
                    return self.label.clone();
                }
                let mut r = self.label.clone();
                r.push_str(" (");
                r.push_str(binary.as_str());
                r.push_str(")");
                r
            },
            None => self.label.clone(),
        }
    }
}

fn available_hint(available: &Vec<String>) -> (r: String)
    ensures
        r@ == hint(available.deep_view()),
{
    if available.len() == 0 {
        return "; nothing is playing audio".to_owned();
    }
    let mut r = "; currently playing: ".to_owned();
    r.push_str(text::join(available, ", ").as_str());
    r
}

impl AudioAppError {
    /// The error in words.
    pub fn message(&self) -> (r: String)
        ensures
            r@ == message_of(self@),
    {
        match self {
            AudioAppError::Unavailable(reason) => {
                let mut r =
                    "the audio graph could not be inspected (is PipeWire running?): ".to_owned();
                r.push_str(reason.as_str());
                r
            },
            AudioAppError::NotFound { name, available } => {
                let mut r = "no application matching \"".to_owned();
                r.push_str(name.as_str());
                r.push_str("\" is playing audio right now");
                r.push_str(available_hint(available).as_str());
                r
            },
            AudioAppError::Ambiguous { name, matches } => {
                let mut r = "\"".to_owned();
                r.push_str(name.as_str());
                r.push_str("\" matches several applications: ");
                r.push_str(text::join(matches, ", ").as_str());
                r.push_str("; be more specific");
                r
            },
        }
    }
}

fn is_text(text: &Option<String>, expected: &str) -> (r: bool)
    ensures
        r == (text.deep_view() == Some(expected@)),
{
    match text {
        Some(text) => text::same(text.as_str(), expected),
        None => false,
    }
}

fn push_present(list: &mut Vec<String>, text: &Option<String>)
    ensures
        final(list).deep_view() == old(list).deep_view() + at_most_one(text.deep_view()),
{
    if let Some(text) = text {
        list.push(text.clone());
    }
    assert(list.deep_view() =~= old(list).deep_view() + at_most_one(text.deep_view()));
}

impl PlaybackStream {
    /// What the stream goes by.
    pub fn match_terms(&self) -> (r: Vec<String>)
        ensures
            r.deep_view() == terms(self@),
    {
        let mut r: Vec<String> = Vec::new();
        push_present(&mut r, &self.application_name);
        push_present(&mut r, &self.binary);
        push_present(&mut r, &self.node_name);
        assert(r.deep_view() =~= terms(self@));
        r
    }

    /// The application of the stream.
    pub fn application(&self) -> (r: AudioApplication)
        ensures
            r@ == application(self@),
    {
        let label = match &self.application_name {
            Some(name) => name.clone(),
            None => match &self.node_name {
                Some(name) => name.clone(),
                None => "unnamed".to_owned(),
            },
        };
        AudioApplication { serial: self.serial, label, binary: self.binary.clone() }
    }

    /// Whether the stream goes by something that contains a name.
    pub fn goes_by(&self, name: &str) -> (r: bool)
        ensures
            r == goes_by(self@, name@),
            vstd::utf8::is_ascii_chars(name@) && ascii_terms(self@) ==> r == goes_by_ascii(
                self@,
                name@,
            ),
    {
        let needle = text::chars_of(text::lowercase(name).as_str());
        let all = self.match_terms();
        let ghost list = terms(self@);
        for i in 0..all.len()
            invariant
                list == terms(self@),
                all.deep_view() == list,
                needle@ == text::lowercase_of(name@),
                vstd::utf8::is_ascii_chars(name@) ==> needle@ == text::ascii_lowered(name@),
                ascii_terms(self@) ==> forall|j: int|
                    0 <= j < i ==> text::lowercase_of(#[trigger] list[j]) == text::ascii_lowered(
                        list[j],
                    ),
                forall|j: int|
                    0 <= j < i ==> !text::occurs(
                        needle@,
                        text::lowercase_of(#[trigger] list[j]),
                    ),
        {
            let hay = text::chars_of(text::lowercase(all[i].as_str()).as_str());
            assert(hay@ == text::lowercase_of(list[i as int]));
            assert(ascii_terms(self@) ==> vstd::utf8::is_ascii_chars(list[i as int]));
            if text::contains_text(&hay, &needle) {
                return true;
            }
        }
        false
    }

    fn goes_by_any(&self, names: &Vec<String>) -> (r: bool)
        ensures
            r == goes_by_any(self@, names.deep_view()),
    {
        let ghost list = names.deep_view();
        for i in 0..names.len()
            invariant
                list == names.deep_view(),
                forall|j: int| 0 <= j < i ==> !goes_by(self@, #[trigger] list[j]),
        {
            if self.goes_by(names[i].as_str()) {
                assert(goes_by(self@, list[i as int]));
                return true;
            }
        }
        false
    }
}

/// The place of a field of one object of the graph.
fn place_text(object: usize, field: &str) -> (r: String)
    ensures
        r@ == place(object as nat, field@),
{
    let mut r = "/".to_owned();
    r.push_str(text::decimal_text(object as u64).as_str());
    r.push_str(field);
    r
}

fn graph_object(dump: &Value, object: usize) -> (r: GraphObject)
    ensures
        r@ == object_in(json_leaves(*dump), object as nat),
{
    GraphObject {
        kind: json_text(dump, place_text(object, "/type").as_str()),
        media_class: json_text(dump, place_text(object, "/info/props/media.class").as_str()),
        serial: json_number(dump, place_text(object, "/info/props/object.serial").as_str()),
        application_name: json_text(
            dump,
            place_text(object, "/info/props/application.name").as_str(),
        ),
        binary: json_text(
            dump,
            place_text(object, "/info/props/application.process.binary").as_str(),
        ),
        node_name: json_text(dump, place_text(object, "/info/props/node.name").as_str()),
    }
}

/// The objects of a dumped graph.
pub fn graph_objects(dump: &Value) -> (r: Vec<GraphObject>)
    ensures
        r.deep_view() == objects_in(json_leaves(*dump)),
{
    let ghost all = objects_in(json_leaves(*dump));
    let size: usize = match json_size(dump, "") {
        Some(size) => size,
        None => 0,
    };
    let mut r: Vec<GraphObject> = Vec::new();
    assert(r.deep_view() =~= all.take(0));
    for i in 0..size
        invariant
            all == objects_in(json_leaves(*dump)),
            size == all.len(),
            r.deep_view() == all.take(i as int),
    {
        let ghost before = r.deep_view();
        r.push(graph_object(dump, i));
        assert(r.deep_view() =~= before.push(all[i as int]));
        assert(r.deep_view() =~= all.take(i + 1));
    }
    assert(all.take(all.len() as int) =~= all);
    r
}

/// The streams of a graph that play audio.
pub fn streams_among(objects: &Vec<GraphObject>) -> (r: Vec<PlaybackStream>)
    ensures
        r.deep_view() == streams_in(objects.deep_view()),
{
    let ghost all = objects.deep_view();
    let ghost playing = |object: GraphObjectView| plays(object);
    let ghost to_stream = |object: GraphObjectView| stream_of(object);
    let mut r: Vec<PlaybackStream> = Vec::new();
    assert(all.take(0).filter(playing) =~= Seq::empty()) by {
        reveal(Seq::filter);
    }
    assert(r.deep_view() =~= all.take(0).filter(playing).map_values(to_stream));
    for i in 0..objects.len()
        invariant
            all == objects.deep_view(),
            playing == |object: GraphObjectView| plays(object),
            to_stream == |object: GraphObjectView| stream_of(object),
            r.deep_view() == all.take(i as int).filter(playing).map_values(to_stream),
    {
        let ghost before = r.deep_view();
        let object = &objects[i];
        proof {
            assert(object@ == all[i as int]);
            assert(all.take(i + 1) =~= all.take(i as int).push(all[i as int]));
            seqs::lemma_filter_push(all.take(i as int), all[i as int], playing);
        }
        if is_text(&object.kind, "PipeWire:Interface:Node") && is_text(
            &object.media_class,
            "Stream/Output/Audio",
        ) {
            if let Some(serial) = object.serial {
                r.push(
                    PlaybackStream {
                        serial,
                        application_name: object.application_name.clone(),
                        binary: object.binary.clone(),
                        node_name: object.node_name.clone(),
                    },
                );
                assert(r.deep_view() =~= before.push(stream_of(all[i as int])));
                assert(r.deep_view() =~= all.take(i + 1).filter(playing).map_values(to_stream));
            }
        }
    }
    assert(all.take(all.len() as int) =~= all);
    r
}

fn playback_streams(dump: &Value) -> (r: Vec<PlaybackStream>)
    ensures
        r.deep_view() == streams_of(json_leaves(*dump)),
{
    streams_among(&graph_objects(dump))
}

fn shown_names(streams: &Vec<PlaybackStream>) -> (r: Vec<String>)
    ensures
        r.deep_view() == shown_all(streams.deep_view()),
{
    let ghost all = streams.deep_view();
    let mut r: Vec<String> = Vec::new();
    assert(r.deep_view() =~= shown_all(all).take(0));
    for i in 0..streams.len()
        invariant
            all == streams.deep_view(),
            r.deep_view() == shown_all(all).take(i as int),
    {
        let ghost before = r.deep_view();
        r.push(streams[i].application().display_name());
        assert(r.deep_view() =~= before.push(shown_all(all)[i as int]));
        assert(r.deep_view() =~= shown_all(all).take(i + 1));
    }
    assert(shown_all(all).take(all.len() as int) =~= shown_all(all));
    r
}

fn available_names(streams: &Vec<PlaybackStream>) -> (r: Vec<String>)
    ensures
        r.deep_view() == available(streams.deep_view()),
{
    sorting::dedup_texts(&sorting::sort_texts(&shown_names(streams)))
}

/// One entry for each application among the streams.
pub fn applications_among(streams: &Vec<PlaybackStream>) -> (r: Vec<AudioApplication>)
    ensures
        r.deep_view() == applications(streams.deep_view()),
{
    let ghost all = streams.deep_view();
    let mut r: Vec<AudioApplication> = Vec::new();
    assert(r.deep_view() =~= applications(all.take(0)));
    for i in 0..streams.len()
        invariant
            all == streams.deep_view(),
            r.deep_view() == applications(all.take(i as int)),
    {
        let ghost before = r.deep_view();
        proof {
            let next = all.take(i + 1);
            assert(next.drop_last() =~= all.take(i as int));
            assert(next.last() == all[i as int]);
        }
        let app = streams[i].application();
        let name = app.display_name();
        let mut known = false;
        for k in 0..r.len()
            invariant
                before == r.deep_view(),
                name@ == shown(app@),
                known == exists|j: int| 0 <= j < k && shown(#[trigger] before[j]) == name@,
        {
            assert(r@[k as int]@ == before[k as int]);
            if text::same(r[k].display_name().as_str(), name.as_str()) {
                known = true;
            }
        }
        if !known {
            r.push(app);
            assert(r.deep_view() =~= before.push(app@));
        }
    }
    assert(all.take(all.len() as int) =~= all);
    r
}

/// What is left of the streams without the excluded applications.
pub fn applications_without(
    streams: &Vec<PlaybackStream>,
    excluded: &Vec<String>,
    missing: MissingExclusion,
) -> (r: Result<Vec<AudioApplication>, AudioAppError>)
    ensures
        match r {
            Ok(kept) => without(streams.deep_view(), excluded.deep_view(), missing) == Ok::<
                _,
                AudioAppErrorView,
            >(kept.deep_view()),
            Err(error) => without(streams.deep_view(), excluded.deep_view(), missing) == Err::<
                Seq<AudioApplicationView>,
                _,
            >(error@),
        },
{
    let ghost all = streams.deep_view();
    let ghost names = excluded.deep_view();
    if missing == MissingExclusion::Reject {
        for i in 0..excluded.len()
            invariant
                all == streams.deep_view(),
                names == excluded.deep_view(),
                missing == MissingExclusion::Reject,
                forall|j: int| 0 <= j < i ==> !unheard(all)(#[trigger] names[j]),
        {
            let mut heard = false;
            for k in 0..streams.len()
                invariant
                    all == streams.deep_view(),
                    names == excluded.deep_view(),
                    i < names.len(),
                    heard == exists|j: int|
                        0 <= j < k && goes_by(#[trigger] all[j], names[i as int]),
            {
                if streams[k].goes_by(excluded[i].as_str()) {
                    assert(goes_by(all[k as int], names[i as int]));
                    heard = true;
                }
            }
            if !heard {
                proof {
                    assert(unheard(all)(names[i as int]));
                    seqs::lemma_first(names, unheard(all), i as int);
                }
                return Err(
                    AudioAppError::NotFound {
                        name: excluded[i].clone(),
                        available: available_names(streams),
                    },
                );
            }
            assert(!unheard(all)(names[i as int]));
        }
        proof {
            seqs::lemma_no_first(names, unheard(all));
        }
    }
    let ghost keep = spared(names);
    let ghost to_app = |s: PlaybackStreamView| application(s);
    let mut kept: Vec<AudioApplication> = Vec::new();
    assert(all.take(0).filter(keep) =~= Seq::empty()) by {
        reveal(Seq::filter);
    }
    assert(kept.deep_view() =~= all.take(0).filter(keep).map_values(to_app));
    for i in 0..streams.len()
        invariant
            all == streams.deep_view(),
            names == excluded.deep_view(),
            keep == spared(names),
            to_app == |s: PlaybackStreamView| application(s),
            kept.deep_view() == all.take(i as int).filter(keep).map_values(to_app),
    {
        let ghost before = kept.deep_view();
        proof {
            assert(all.take(i + 1) =~= all.take(i as int).push(all[i as int]));
            seqs::lemma_filter_push(all.take(i as int), all[i as int], keep);
        }
        if !streams[i].goes_by_any(excluded) {
            kept.push(streams[i].application());
            assert(kept.deep_view() =~= before.push(application(all[i as int])));
            assert(kept.deep_view() =~= all.take(i + 1).filter(keep).map_values(to_app));
        }
    }
    assert(all.take(all.len() as int) =~= all);
    Ok(kept)
}

/// The one application that goes by a name.
pub fn resolve_among(streams: &Vec<PlaybackStream>, name: &str) -> (r: Result<
    AudioApplication,
    AudioAppError,
>)
    ensures
        match r {
            Ok(app) => resolved(streams.deep_view(), name@) == Ok::<_, AudioAppErrorView>(app@),
            Err(error) => resolved(streams.deep_view(), name@) == Err::<AudioApplicationView, _>(
                error@,
            ),
        },
{
    let ghost all = streams.deep_view();
    let mut matches: Vec<PlaybackStream> = Vec::new();
    assert(all.take(0).filter(named(name@)) =~= Seq::empty()) by {
        reveal(Seq::filter);
    }
    assert(matches.deep_view() =~= Seq::empty());
    for i in 0..streams.len()
        invariant
            all == streams.deep_view(),
            matches.deep_view() == all.take(i as int).filter(named(name@)),
    {
        let ghost before = matches.deep_view();
        proof {
            assert(all.take(i + 1) =~= all.take(i as int).push(all[i as int]));
            seqs::lemma_filter_push(all.take(i as int), all[i as int], named(name@));
        }
        if streams[i].goes_by(name) {
            matches.push(streams[i].clone());
            assert(matches.deep_view() =~= before.push(all[i as int]));
        }
    }
    assert(all.take(all.len() as int) =~= all);
    let labels = sorting::dedup_texts(&shown_names(&matches));
    if matches.len() == 0 {
        Err(
            AudioAppError::NotFound { name: name.to_owned(), available: available_names(streams) },
        )
    } else if labels.len() == 1 {
        Ok(matches[0].application())
    } else {
        Err(AudioAppError::Ambiguous { name: name.to_owned(), matches: labels })
    }
}

/// What a share without an explicit choice carries, given what plays.
pub fn decide_among(streams: &Vec<PlaybackStream>, excluded: &Vec<String>) -> (r:
    DefaultAudioDecision)
    ensures
        r@ == decided(streams.deep_view(), excluded.deep_view()),
{
    let kept = match applications_without(streams, excluded, MissingExclusion::Ignore) {
        Ok(kept) => kept,
        Err(_) => Vec::new(),
    };
    assert(kept.deep_view() == self::kept(streams.deep_view(), excluded.deep_view()));
    if kept.len() > 0 {
        DefaultAudioDecision::Share(kept)
    } else if streams.len() == 0 {
        DefaultAudioDecision::NoAudio(NoAudioReason::NothingPlaying)
    } else {
        DefaultAudioDecision::NoAudio(NoAudioReason::OnlyExcludedPlaying)
    }
}

/// The applications of a dumped graph, one entry for each.
pub fn applications_in_dump(dump: &Value) -> (r: Vec<AudioApplication>)
    ensures
        r.deep_view() == applications(streams_of(json_leaves(*dump))),
{
    applications_among(&playback_streams(dump))
}

/// What is left of a dumped graph without the excluded applications.
pub fn applications_except_in(
    dump: &Value,
    excluded: &Vec<String>,
    missing: MissingExclusion,
) -> (r: Result<Vec<AudioApplication>, AudioAppError>)
    ensures
        match r {
            Ok(kept) => without(
                streams_of(json_leaves(*dump)),
                excluded.deep_view(),
                missing,
            ) == Ok::<_, AudioAppErrorView>(kept.deep_view()),
            Err(error) => without(
                streams_of(json_leaves(*dump)),
                excluded.deep_view(),
                missing,
            ) == Err::<Seq<AudioApplicationView>, _>(error@),
        },
{
    applications_without(&playback_streams(dump), excluded, missing)
}

/// The one application of a dumped graph that goes by a name.
pub fn resolve_in_dump(dump: &Value, name: &str) -> (r: Result<AudioApplication, AudioAppError>)
    ensures
        match r {
            Ok(app) => resolved(streams_of(json_leaves(*dump)), name@) == Ok::<
                _,
                AudioAppErrorView,
            >(app@),
            Err(error) => resolved(streams_of(json_leaves(*dump)), name@) == Err::<
                AudioApplicationView,
                _,
            >(error@),
        },
{
    resolve_among(&playback_streams(dump), name)
}

/// What a share without an explicit choice carries, given a dumped graph.
pub fn decide_default_audio(dump: &Value, excluded: &Vec<String>) -> (r: DefaultAudioDecision)
    ensures
        r@ == decided(streams_of(json_leaves(*dump)), excluded.deep_view()),
{
    decide_among(&playback_streams(dump), excluded)
}

/// The dumped graph.
fn graph_snapshot(output: &DumpOutput) -> (r: Result<Value, AudioAppError>)
    ensures
        match r {
            Ok(dump) => dumped(output@) == Ok::<_, Seq<char>>(json_leaves(dump)),
            Err(error) => error@ matches AudioAppErrorView::Unavailable(reason) && dumped(output@)
                == Err::<Map<Seq<char>, JsonLeaf>, _>(reason),
        },
{
    match output {
        DumpOutput::Failed { error } => Err(AudioAppError::Unavailable(error.clone())),
        DumpOutput::Exited { success, status, stdout } => {
            if !*success {
                let mut reason = "pw-dump exited with ".to_owned();
                reason.push_str(status.as_str());
                return Err(AudioAppError::Unavailable(reason));
            }
            match parse_json(stdout.as_slice()) {
                Ok(dump) => Ok(dump),
                Err(reason) => Err(AudioAppError::Unavailable(reason)),
            }
        },
    }
}

/// The applications that play audio, one entry for each even when it has
/// several streams.
pub fn playing_applications(output: &DumpOutput) -> (r: Result<
    Vec<AudioApplication>,
    AudioAppError,
>)
    ensures
        match dumped(output@) {
            Ok(leaves) => r matches Ok(list) && list.deep_view() == applications(
                streams_of(leaves),
            ),
            Err(reason) => r matches Err(error) && error@ == AudioAppErrorView::Unavailable(reason),
        },
{
    match graph_snapshot(output) {
        Ok(dump) => Ok(applications_in_dump(&dump)),
        Err(error) => Err(error),
    }
}

/// Finds the application whose name, binary or stream name contains `name`,
/// whatever the case.
pub fn resolve_application(output: &DumpOutput, name: &str) -> (r: Result<
    AudioApplication,
    AudioAppError,
>)
    ensures
        match dumped(output@) {
            Ok(leaves) => match resolved(streams_of(leaves), name@) {
                Ok(app) => r matches Ok(found) && found@ == app,
                Err(error) => r matches Err(e) && e@ == error,
            },
            Err(reason) => r matches Err(error) && error@ == AudioAppErrorView::Unavailable(reason),
        },
{
    match graph_snapshot(output) {
        Ok(dump) => resolve_in_dump(&dump, name),
        Err(error) => Err(error),
    }
}

/// The applications that play audio and that none of `excluded` matches. An
/// exclusion that matches nothing is an error, so that a typo does not share
/// the very audio that was to be kept private.
pub fn applications_except(output: &DumpOutput, excluded: &Vec<String>) -> (r: Result<
    Vec<AudioApplication>,
    AudioAppError,
>)
    ensures
        match dumped(output@) {
            Ok(leaves) => match without(
                streams_of(leaves),
                excluded.deep_view(),
                MissingExclusion::Reject,
            ) {
                Ok(apps) => r matches Ok(list) && list.deep_view() == apps,
                Err(error) => r matches Err(e) && e@ == error,
            },
            Err(reason) => r matches Err(error) && error@ == AudioAppErrorView::Unavailable(reason),
        },
{
    match graph_snapshot(output) {
        Ok(dump) => applications_except_in(&dump, excluded, MissingExclusion::Reject),
        Err(error) => Err(error),
    }
}

/// What a share without an explicit choice carries, given a dump that may have
/// failed.
pub open spec fn excluding(
    dump: Result<Map<Seq<char>, JsonLeaf>, Seq<char>>,
    excluded: Seq<Seq<char>>,
) -> DefaultAudioDecisionView {
    match dump {
        Ok(leaves) => decided(streams_of(leaves), excluded),
        Err(reason) => DefaultAudioDecisionView::NoAudio(
            NoAudioReasonView::GraphUnreadable(message_of(AudioAppErrorView::Unavailable(reason))),
        ),
    }
}

/// Decides what a share without an explicit choice carries.
pub fn default_audio_exclusion(output: &DumpOutput, excluded: &Vec<String>) -> (r:
    DefaultAudioDecision)
    ensures
        r@ == excluding(dumped(output@), excluded.deep_view()),
{
    match graph_snapshot(output) {
        Ok(dump) => decide_default_audio(&dump, excluded),
        Err(error) => DefaultAudioDecision::NoAudio(
            NoAudioReason::GraphUnreadable(error.message()),
        ),
    }
}

/// The capture targets of applications.
pub open spec fn targets(apps: Seq<AudioApplicationView>) -> Seq<Seq<char>> {
    apps.map_values(|app: AudioApplicationView| text::decimal(app.serial as nat))
}

/// The targets that a shared mix is to hold under a decision. An unreadable
/// graph leaves the mix alone.
pub open spec fn mix(decision: DefaultAudioDecisionView) -> Option<Seq<Seq<char>>> {
    match decision {
        DefaultAudioDecisionView::Share(apps) => Some(targets(apps)),
        DefaultAudioDecisionView::NoAudio(reason) => match reason {
            NoAudioReasonView::GraphUnreadable(_) => None,
            _ => Some(Seq::empty()),
        },
    }
}

/// The stream targets that the shared mix is to hold right now, or `None` when
/// the graph is unreadable.
pub fn excluded_mix_targets(output: &DumpOutput, excluded: &Vec<String>) -> (r: Option<Vec<String>>)
    ensures
        r.deep_view() == mix(excluding(dumped(output@), excluded.deep_view())),
{
    match default_audio_exclusion(output, excluded) {
        DefaultAudioDecision::Share(apps) => {
            let ghost all = apps.deep_view();
            let mut r: Vec<String> = Vec::new();
            assert(r.deep_view() =~= targets(all).take(0));
            for i in 0..apps.len()
                invariant
                    all == apps.deep_view(),
                    r.deep_view() == targets(all).take(i as int),
            {
                let ghost before = r.deep_view();
                r.push(text::decimal_text(apps[i].serial));
                assert(r.deep_view() =~= before.push(targets(all)[i as int]));
                assert(r.deep_view() =~= targets(all).take(i + 1));
            }
            assert(targets(all).take(all.len() as int) =~= targets(all));
            Some(r)
        },
        DefaultAudioDecision::NoAudio(NoAudioReason::GraphUnreadable(_)) => None,
        DefaultAudioDecision::NoAudio(_) => {
            let r: Vec<String> = Vec::new();
            assert(r.deep_view() =~= Seq::empty());
            Some(r)
        },
    }
}

/// An excluded application is never shared: whatever a share carries comes from
/// a stream that plays and that no exclusion matches, and every such stream is
/// carried.
pub proof fn law_exclusions_are_never_shared(
    streams: Seq<PlaybackStreamView>,
    excluded: Seq<Seq<char>>,
    app: AudioApplicationView,
)
    ensures
        (decided(streams, excluded) matches DefaultAudioDecisionView::Share(apps) && apps.contains(
            app,
        )) <==> exists|s: PlaybackStreamView| #[trigger]
            streams.contains(s) && !goes_by_any(s, excluded) && application(s) == app,
{
    let left = streams.filter(spared(excluded));
    let apps = kept(streams, excluded);
    seqs::lemma_filter_members(streams, spared(excluded));
    if apps.contains(app) {
        let i = choose|i: int| 0 <= i < apps.len() && apps[i] == app;
        assert(left.contains(left[i]));
        assert(streams.contains(left[i]));
    }
    if exists|s: PlaybackStreamView| #[trigger]
        streams.contains(s) && !goes_by_any(s, excluded) && application(s) == app {
        let s = choose|s: PlaybackStreamView| #[trigger]
            streams.contains(s) && !goes_by_any(s, excluded) && application(s) == app;
        assert(left.contains(s));
        let i = choose|i: int| 0 <= i < left.len() && left[i] == s;
        assert(apps[i] == app);
    }
}

/// When the graph cannot be read, nothing is shared and a running mix is left
/// alone.
pub proof fn law_an_unreadable_graph_shares_nothing(
    output: DumpOutputView,
    excluded: Seq<Seq<char>>,
)
    requires
        dumped(output) is Err,
    ensures
        excluding(dumped(output), excluded) matches DefaultAudioDecisionView::NoAudio(
            NoAudioReasonView::GraphUnreadable(_),
        ),
        mix(excluding(dumped(output), excluded)) is None,
{
}

/// A typed exclusion that nothing matches is an error, so a typo never shares
/// the audio that it was meant to remove.
pub proof fn law_typos_are_refused(
    streams: Seq<PlaybackStreamView>,
    excluded: Seq<Seq<char>>,
    k: int,
)
    requires
        0 <= k < excluded.len(),
        forall|i: int| 0 <= i < streams.len() ==> !goes_by(#[trigger] streams[i], excluded[k]),
    ensures
        without(streams, excluded, MissingExclusion::Reject) is Err,
        without(streams, excluded, MissingExclusion::Ignore) is Ok,
{
    seqs::lemma_first_where(excluded, unheard(streams));
    assert(unheard(streams)(excluded[k]));
}

/// Each application is listed once: no two entries are shown alike.
pub proof fn law_applications_are_listed_once(streams: Seq<PlaybackStreamView>)
    ensures
        forall|i: int, j: int|
            0 <= i < j < applications(streams).len() ==> shown(#[trigger] applications(streams)[i])
                != shown(#[trigger] applications(streams)[j]),
        forall|i: int|
            0 <= i < streams.len() ==> exists|j: int|
                0 <= j < applications(streams).len() && shown(#[trigger] applications(streams)[j])
                    == shown(application(#[trigger] streams[i])),
    decreases streams.len(),
{
    if streams.len() > 0 {
        let init = streams.drop_last();
        law_applications_are_listed_once(init);
        let before = applications(init);
        let after = applications(streams);
        assert forall|i: int| 0 <= i < streams.len() implies exists|j: int|
            0 <= j < after.len() && shown(#[trigger] after[j]) == shown(
                application(#[trigger] streams[i]),
            ) by {
            if i < init.len() {
                assert(init[i] == streams[i]);
                let j = choose|j: int|
                    0 <= j < before.len() && shown(#[trigger] before[j]) == shown(
                        application(init[i]),
                    );
                assert(after[j] == before[j]);
            } else if after.len() > before.len() {
                assert(after[before.len() as int] == application(streams.last()));
            } else {
                let j = choose|j: int|
                    0 <= j < before.len() && shown(#[trigger] before[j]) == shown(
                        application(streams.last()),
                    );
                assert(after[j] == before[j]);
            }
        }
    }
}

/// A name resolves to the first stream that goes by it, if and only if every
/// such stream is shown alike.
pub proof fn law_resolution_is_unambiguous(
    streams: Seq<PlaybackStreamView>,
    name: Seq<char>,
)
    ensures
        ({
            let matches = streams.filter(named(name));
            resolved(streams, name) is Ok <==> matches.len() > 0 && forall|i: int|
                0 <= i < matches.len() ==> shown(application(#[trigger] matches[i])) == shown(
                    application(matches[0]),
                )
        }),
{
    let matches = streams.filter(named(name));
    let labels = shown_all(matches);
    lemma_deduped_single(labels);
    if forall|i: int| 0 <= i < labels.len() ==> #[trigger] labels[i] == labels[0] {
        assert forall|i: int| 0 <= i < matches.len() implies shown(
            application(#[trigger] matches[i]),
        ) == shown(application(matches[0])) by {
            assert(labels[i] == labels[0]);
        }
    } else {
        let i = choose|i: int| 0 <= i < labels.len() && #[trigger] labels[i] != labels[0];
        assert(shown(application(matches[i])) != shown(application(matches[0])));
    }
}

/// One is left exactly if all are equal.
proof fn lemma_deduped_single<A>(s: Seq<A>)
    ensures
        seqs::deduped(s).len() == 0 <==> s.len() == 0,
        seqs::deduped(s).len() == 1 <==> s.len() > 0 && forall|i: int|
            0 <= i < s.len() ==> #[trigger] s[i] == s[0],
        s.len() > 0 ==> seqs::deduped(s)[0] == s[0] && seqs::deduped(s).last() == s.last(),
    decreases s.len(),
{
    if s.len() > 0 {
        let init = s.drop_last();
        lemma_deduped_single(init);
        if init.len() > 0 {
            assert(init[0] == s[0]);
            if forall|i: int| 0 <= i < s.len() ==> #[trigger] s[i] == s[0] {
                assert forall|i: int| 0 <= i < init.len() implies #[trigger] init[i]
                    == init[0] by {
                    assert(s[i] == s[0]);
                }
                assert(s[s.len() - 1] == s[0]);
                assert(init.last() == s[s.len() - 2]);
            }
            if seqs::deduped(s).len() == 1 {
                assert(seqs::deduped(init).len() == 1);
                assert forall|i: int| 0 <= i < s.len() implies #[trigger] s[i] == s[0] by {
                    if i < init.len() {
                        assert(init[i] == init[0]);
                    }
                }
            }
        }
    }
}

} // verus!
