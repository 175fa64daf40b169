//! The command-line receiver: its arguments, what it does with them, what it
//! counts and what it buffers.

use crate::devices::{
    find_stream, first_place, lemma_first_place, node_ids, selected_stream, DiscoveredStream,
    StreamInfo,
};
use crate::text::{
    decimal, option_text, parse_unsigned, parsed_unsigned, push_decimal, same_text, texts,
};
use std::collections::VecDeque;
use vstd::prelude::*;

verus! {

// ---------------------------------------------------------------------------
// Arguments
// ---------------------------------------------------------------------------

pub const HELP_TEXT: &'static str = "OpenAudio receiver\n\n  --list\n  --publisher <IP> --stream-id <ID> [--port <UDP>] [--seconds <N>]";

pub const STREAM_ID_INVALID: &'static str = "--stream-id must be an integer";

pub const PORT_INVALID: &'static str = "--port must be a valid UDP port";

pub const SECONDS_INVALID: &'static str = "--seconds must be an integer";

pub const PUBLISHER_REQUIRED: &'static str = "--publisher IP is required when subscribing";

pub const STREAM_ID_REQUIRED: &'static str = "--stream-id is required when subscribing";

/// What the arguments say.
pub struct Options {
    pub list: bool,
    pub inspect: bool,
    pub publisher: Option<String>,
    pub stream_id: Option<u32>,
    pub receive_port: u16,
    pub seconds: u64,
}

/// What the arguments say, in mathematical terms.
#[verifier::ext_equal]
pub struct OptionValues {
    pub list: bool,
    pub inspect: bool,
    pub publisher: Option<Seq<char>>,
    pub stream_id: Option<u32>,
    pub receive_port: u16,
    pub seconds: u64,
}

impl View for Options {
    type V = OptionValues;

    open spec fn view(&self) -> OptionValues {
        OptionValues {
            list: self.list,
            inspect: self.inspect,
            publisher: option_text(self.publisher),
            stream_id: self.stream_id,
            receive_port: self.receive_port,
            seconds: self.seconds,
        }
    }
}

/// What a command line asks for.
pub enum Invocation {
    /// To show the help text and end.
    Help,
    /// To go to work.
    Run(Options),
}

/// What a command line asks for, in mathematical terms.
pub enum Asked {
    Help,
    Run(OptionValues),
}

impl View for Invocation {
    type V = Asked;

    open spec fn view(&self) -> Asked {
        match self {
            Invocation::Help => Asked::Help,
            Invocation::Run(options) => Asked::Run(options@),
        }
    }
}

impl OptionValues {
    /// What holds where the arguments say nothing.
    pub open spec fn defaults() -> OptionValues {
        OptionValues {
            list: false,
            inspect: false,
            publisher: None,
            stream_id: None,
            receive_port: 7050,
            seconds: 10,
        }
    }
}

/// The options after one that takes a value, or what is wrong with the value.
pub open spec fn with_value(
    options: OptionValues,
    flag: Seq<char>,
    value: Seq<char>,
) -> Result<OptionValues, Seq<char>> {
    if flag == "--publisher"@ {
        Ok(OptionValues { publisher: Some(value), ..options })
    } else if flag == "--stream-id"@ {
        match parsed_unsigned(value, u32::MAX as nat) {
            Some(id) => Ok(OptionValues { stream_id: Some(id as u32), ..options }),
            None => Err(STREAM_ID_INVALID@),
        }
    } else if flag == "--port"@ {
        match parsed_unsigned(value, u16::MAX as nat) {
            Some(port) => Ok(OptionValues { receive_port: port as u16, ..options }),
            None => Err(PORT_INVALID@),
        }
    } else {
        match parsed_unsigned(value, u64::MAX as nat) {
            Some(seconds) => Ok(OptionValues { seconds: seconds as u64, ..options }),
            None => Err(SECONDS_INVALID@),
        }
    }
}

/// Whether an argument is followed by a value.
pub open spec fn takes_value(flag: Seq<char>) -> bool {
    flag == "--publisher"@ || flag == "--stream-id"@ || flag == "--port"@ || flag == "--seconds"@
}

/// What some arguments ask for, on top of `options`.  Later arguments prevail,
/// and nothing after a call for help counts.
pub open spec fn asked(args: Seq<Seq<char>>, options: OptionValues) -> Result<Asked, Seq<char>>
    decreases args.len(),
{
    if args.len() == 0 {
        Ok(Asked::Run(options))
    } else {
        let flag = args[0];
        if flag == "--list"@ {
            asked(args.skip(1), OptionValues { list: true, ..options })
        } else if flag == "--inspect"@ {
            asked(args.skip(1), OptionValues { inspect: true, ..options })
        } else if takes_value(flag) {
            if args.len() == 1 {
                Err(flag + " requires a value"@)
            } else {
                match with_value(options, flag, args[1]) {
                    Ok(next) => asked(args.skip(2), next),
                    Err(message) => Err(message),
                }
            }
        } else if flag == "--help"@ || flag == "-h"@ {
            Ok(Asked::Help)
        } else {
            Err("unknown argument '"@ + flag + "'; use --help"@)
        }
    }
}

/// A result, in mathematical terms.
pub open spec fn answer(result: Result<Invocation, String>) -> Result<Asked, Seq<char>> {
    match result {
        Ok(invocation) => Ok(invocation@),
        Err(message) => Err(message@),
    }
}

/// The value that stands at a place behind its argument.
pub fn next_value(args: &Vec<String>, index: usize, flag: &str) -> (value: Result<String, String>)
    ensures
        match value {
            Ok(text) => index < args@.len() && text@ == args@[index as int]@,
            Err(message) => index >= args@.len() && message@ == flag@ + " requires a value"@,
        },
{
    if index < args.len() {
        Ok(args[index].clone())
    } else {
        let mut message = flag.to_string();
        message.append(" requires a value");
        Err(message)
    }
}

/// Takes in an argument and its value.
fn apply_value(options: Options, flag: &str, value: String) -> (result: Result<Options, String>)
    ensures
        match result {
            Ok(next) => with_value(options@, flag@, value@) == Ok::<OptionValues, Seq<char>>(next@),
            Err(message) => with_value(options@, flag@, value@) == Err::<OptionValues, Seq<char>>(
                message@,
            ),
        },
{
    let mut options = options;
    if same_text(flag, "--publisher") {
        options.publisher = Some(value);
        Ok(options)
    } else if same_text(flag, "--stream-id") {
        match parse_unsigned(value.as_str(), u32::MAX as u64) {
            Some(id) => {
                options.stream_id = Some(id as u32);
                Ok(options)
            },
            None => Err(STREAM_ID_INVALID.to_string()),
        }
    } else if same_text(flag, "--port") {
        match parse_unsigned(value.as_str(), u16::MAX as u64) {
            Some(port) => {
                options.receive_port = port as u16;
                Ok(options)
            },
            None => Err(PORT_INVALID.to_string()),
        }
    } else {
        match parse_unsigned(value.as_str(), u64::MAX) {
            Some(seconds) => {
                options.seconds = seconds;
                Ok(options)
            },
            None => Err(SECONDS_INVALID.to_string()),
        }
    }
}

/// Reads the arguments that follow the name of the program.
pub fn parse_options(args: &Vec<String>) -> (result: Result<Invocation, String>)
    ensures
        answer(result) == asked(texts(args@), OptionValues::defaults()),
{
    let ghost all = texts(args@);
    let mut options = Options {
        list: false,
        inspect: false,
        publisher: None,
        stream_id: None,
        receive_port: 7050,
        seconds: 10,
    };
    let mut i: usize = 0;
    assert(all.skip(0) =~= all);
    while i < args.len()
        invariant
            all == texts(args@),
            i <= args@.len(),
            asked(all, OptionValues::defaults()) == asked(all.skip(i as int), options@),
        decreases args.len() - i,
    {
        let ghost here = all.skip(i as int);
        let flag = args[i].as_str();
        assert(here[0] == flag@);
        assert(here.skip(1) =~= all.skip(i + 1));
        if same_text(flag, "--list") {
            options.list = true;
            i = i + 1;
        } else if same_text(flag, "--inspect") {
            options.inspect = true;
            i = i + 1;
        } else if same_text(flag, "--publisher") || same_text(flag, "--stream-id") || same_text(
            flag,
            "--port",
        ) || same_text(flag, "--seconds") {
            match next_value(args, i + 1, flag) {
                Err(message) => {
                    return Err(message);
                },
                Ok(value) => {
                    assert(here[1] == value@);
                    assert(here.skip(2) =~= all.skip(i + 2));
                    match apply_value(options, flag, value) {
                        Ok(next) => {
                            options = next;
                        },
                        Err(message) => {
                            return Err(message);
                        },
                    }
                    i = i + 2;
                },
            }
        } else if same_text(flag, "--help") || same_text(flag, "-h") {
            return Ok(Invocation::Help);
        } else {
            let mut message = "unknown argument '".to_string();
            message.append(flag);
            message.append("'; use --help");
            return Err(message);
        }
    }
    Ok(Invocation::Run(options))
}

/// Without arguments the defaults hold.
pub proof fn lemma_no_arguments(options: OptionValues)
    ensures
        asked(Seq::empty(), options) == Ok::<Asked, Seq<char>>(Asked::Run(options)),
{
}

/// A stream number is read back from its decimal notation, and a later one
/// prevails over an earlier one.
pub proof fn lemma_stream_id_is_read(options: OptionValues, id: u32, rest: Seq<Seq<char>>)
    ensures
        asked(seq!["--stream-id"@, decimal(id as nat)] + rest, options) == asked(
            rest,
            OptionValues { stream_id: Some(id), ..options },
        ),
{
    reveal_strlit("--stream-id");
    reveal_strlit("--list");
    reveal_strlit("--inspect");
    reveal_strlit("--publisher");
    reveal_strlit("--port");
    let args = seq!["--stream-id"@, decimal(id as nat)] + rest;
    crate::text::lemma_parse_of_decimal(id as nat, u32::MAX as nat);
    assert(args[0] == "--stream-id"@);
    assert(args[1] == decimal(id as nat));
    assert(args.skip(2) =~= rest);
    assert("--stream-id"@.len() == 11);
    assert("--publisher"@.len() == 11);
    assert("--stream-id"@[2] == 's');
    assert("--publisher"@[2] == 'p');
    assert("--list"@.len() == 6);
    assert("--inspect"@.len() == 9);
    assert("--port"@.len() == 6);
}

// ---------------------------------------------------------------------------
// What is to be done
// ---------------------------------------------------------------------------

/// A stream that is to be received.
pub struct Subscription {
    pub publisher: String,
    pub stream_id: u32,
    /// Whether packets are only counted rather than played.
    pub inspect: bool,
    pub receive_port: u16,
    pub seconds: u64,
}

/// What the receiver does.
pub struct ReceiverPlan {
    /// Whether discovered streams are listed first.
    pub list: bool,
    /// What is received afterwards, if anything.
    pub subscription: Result<Option<Subscription>, String>,
}

impl OptionValues {
    /// Whether the options name no stream at all.
    pub open spec fn names_nothing(self) -> bool {
        self.publisher is None && self.stream_id is None
    }
}

impl Options {
    /// What the receiver does.
    pub fn plan(self) -> (plan: ReceiverPlan)
        ensures
            plan.list == (self.list || self@.names_nothing()),
            self@.names_nothing() ==> plan.subscription == Ok::<Option<Subscription>, String>(None),
            !self@.names_nothing() ==> match (self@.publisher, self@.stream_id) {
                (None, _) => plan.subscription matches Err(message) && message@
                    == PUBLISHER_REQUIRED@,
                (Some(_), None) => plan.subscription matches Err(message) && message@
                    == STREAM_ID_REQUIRED@,
                (Some(publisher), Some(stream_id)) => plan.subscription matches Ok(Some(s))
                    && s.publisher@ == publisher && s.stream_id == stream_id && s.inspect
                    == self.inspect && s.receive_port == self.receive_port && s.seconds
                    == self.seconds,
            },
    {
        let nothing = self.publisher.is_none() && self.stream_id.is_none();
        let list = self.list || nothing;
        if nothing {
            return ReceiverPlan { list, subscription: Ok(None) };
        }
        match self.publisher {
            None => ReceiverPlan { list, subscription: Err(PUBLISHER_REQUIRED.to_string()) },
            Some(publisher) => match self.stream_id {
                None => ReceiverPlan { list, subscription: Err(STREAM_ID_REQUIRED.to_string()) },
                Some(stream_id) => ReceiverPlan {
                    list,
                    subscription: Ok(
                        Some(
                            Subscription {
                                publisher,
                                stream_id,
                                inspect: self.inspect,
                                receive_port: self.receive_port,
                                seconds: self.seconds,
                            },
                        ),
                    ),
                },
            },
        }
    }
}

// ---------------------------------------------------------------------------
// Discovery
// ---------------------------------------------------------------------------

/// Whether each node stands in a directory once at most.
pub open spec fn one_per_node(streams: Seq<DiscoveredStream>) -> bool {
    node_ids(streams).no_duplicates()
}

/// A directory after an announcement: it takes the place of an earlier one of
/// the same node.
pub open spec fn recorded(
    streams: Seq<DiscoveredStream>,
    stream: DiscoveredStream,
) -> Seq<DiscoveredStream> {
    match first_place(node_ids(streams), stream@.node_id) {
        Some(i) => streams.update(i, stream),
        None => streams.push(stream),
    }
}

/// Takes an announcement into a directory.
pub fn record_announcement(streams: &mut Vec<DiscoveredStream>, stream: DiscoveredStream)
    ensures
        final(streams)@ == recorded(old(streams)@, stream),
{
    proof {
        lemma_first_place(node_ids(streams@), stream@.node_id);
    }
    match find_stream(streams, stream.node_id.as_str()) {
        Some(i) => {
            streams.set(i, stream);
        },
        None => {
            streams.push(stream);
        },
    }
}

/// A directory keeps one entry per node, gives back what a node announced last,
/// and leaves the other nodes alone.
pub proof fn lemma_directory(
    streams: Seq<DiscoveredStream>,
    stream: DiscoveredStream,
    other: Seq<char>,
)
    requires
        one_per_node(streams),
    ensures
        one_per_node(recorded(streams, stream)),
        selected_stream(recorded(streams, stream), Some(stream@.node_id)) == Some(stream),
        other != stream@.node_id ==> selected_stream(recorded(streams, stream), Some(other))
            == selected_stream(streams, Some(other)),
{
    let id = stream@.node_id;
    let before = node_ids(streams);
    let after = node_ids(recorded(streams, stream));
    lemma_first_place(before, id);
    lemma_first_place(after, id);
    lemma_first_place(before, other);
    lemma_first_place(after, other);
    match first_place(before, id) {
        Some(i) => {
            assert(after =~= before);
        },
        None => {
            assert(after =~= before.push(id));
            assert(after[before.len() as int] == id);
            assert(after.contains(id));
            let p = first_place(after, id)->0;
            if p < before.len() {
                assert(before[p] == id);
                assert(before.contains(id));
            }
            if other != id {
                if before.contains(other) {
                    let i = first_place(before, other)->0;
                    assert(after[i] == other);
                    assert(after.contains(other));
                    let j = first_place(after, other)->0;
                    assert(j < before.len());
                    assert(before[j] == other);
                } else if after.contains(other) {
                    let j = choose|j: int| 0 <= j < after.len() && after[j] == other;
                    assert(before[j] == other);
                    assert(before.contains(other));
                }
            }
        },
    }
}

/// The line that lists a stream.  `labels` is how its channel labels are shown.
pub open spec fn listing(stream: StreamInfo, labels: Seq<char>) -> Seq<char> {
    stream.node_name + " / "@ + stream.stream_name + " — "@ + decimal(stream.channel_count as nat)
        + "ch @ labels "@ + labels + " — "@ + stream.ip + ":"@ + decimal(
        stream.control_port as nat,
    ) + " — stream "@ + decimal(stream.stream_id as nat)
}

/// The line that lists a stream.
pub fn listing_line(stream: &DiscoveredStream, labels: &str) -> (line: String)
    ensures
        line@ == listing(stream@, labels@),
{
    let mut line = stream.node_name.clone();
    line.append(" / ");
    line.append(stream.stream_name.as_str());
    line.append(" — ");
    push_decimal(&mut line, stream.channel_count as u128);
    line.append("ch @ labels ");
    line.append(labels);
    line.append(" — ");
    line.append(stream.ip.as_str());
    line.append(":");
    push_decimal(&mut line, stream.control_port as u128);
    line.append(" — stream ");
    push_decimal(&mut line, stream.stream_id as u128);
    line
}

// ---------------------------------------------------------------------------
// Counting
// ---------------------------------------------------------------------------

/// What happens while a stream is received.
#[derive(Clone, Copy, Debug, PartialEq, Eq, Structural)]
pub enum ReceiveEvent {
    Packet,
    Dropped(u64),
    FormatChanged { channels: u16, sample_rate: u32 },
    Disconnected,
    Reconnected,
}

/// What has been received so far.
#[derive(Clone, Copy, Debug)]
pub struct ReceiveStats {
    pub packets: u64,
    pub dropped: u64,
    pub format: Option<(u16, u32)>,
}

/// How many packets lie between two lines of progress.
pub const PROGRESS_INTERVAL: u64 = 100;

/// How many packets some events bring.
pub open spec fn packets_in(events: Seq<ReceiveEvent>) -> nat
    decreases events.len(),
{
    if events.len() == 0 {
        0
    } else {
        packets_in(events.drop_last()) + if events.last() is Packet {
            1nat
        } else {
            0nat
        }
    }
}

/// How many packets some events report lost.
pub open spec fn dropped_in(events: Seq<ReceiveEvent>) -> nat
    decreases events.len(),
{
    if events.len() == 0 {
        0
    } else {
        dropped_in(events.drop_last()) + match events.last() {
            ReceiveEvent::Dropped(count) => count as nat,
            _ => 0nat,
        }
    }
}

/// The format that some events leave behind.
pub open spec fn format_after(events: Seq<ReceiveEvent>) -> Option<(u16, u32)>
    decreases events.len(),
{
    if events.len() == 0 {
        None
    } else {
        match events.last() {
            ReceiveEvent::FormatChanged { channels, sample_rate } => Some((channels, sample_rate)),
            _ => format_after(events.drop_last()),
        }
    }
}

/// A format as it is shown.
pub open spec fn format_text(format: Option<(u16, u32)>) -> Seq<char> {
    match format {
        None => "None"@,
        Some((channels, sample_rate)) => "Some(("@ + decimal(channels as nat) + ", "@ + decimal(
            sample_rate as nat,
        ) + "))"@,
    }
}

/// What playing a stream asks of the output.
#[derive(Clone, Copy, Debug, PartialEq, Eq, Structural)]
pub enum PlaybackAction {
    /// Nothing.
    Nothing,
    /// To buffer the samples of the packet, after converting them from another
    /// sample rate where one is given.
    Buffer { channels: u16, resample_from: Option<u32> },
    /// To empty the buffer and open the output again.
    OpenOutput,
    /// To close the output.
    CloseOutput,
}

impl ReceiveStats {
    /// What an event asks of an output that runs at `output_sample_rate`.
    /// Packets of an unknown format are not played.
    pub open spec fn playback(self, event: ReceiveEvent, output_sample_rate: u32) -> PlaybackAction {
        match event {
            ReceiveEvent::Packet => match self.format {
                Some((channels, sample_rate)) => PlaybackAction::Buffer {
                    channels,
                    resample_from: if sample_rate != output_sample_rate {
                        Some(sample_rate)
                    } else {
                        None
                    },
                },
                None => PlaybackAction::Nothing,
            },
            ReceiveEvent::FormatChanged { .. } => PlaybackAction::OpenOutput,
            ReceiveEvent::Disconnected => PlaybackAction::CloseOutput,
            ReceiveEvent::Dropped(_) => PlaybackAction::Nothing,
            ReceiveEvent::Reconnected => PlaybackAction::Nothing,
        }
    }

    /// What an event asks of an output that runs at `output_sample_rate`.
    pub fn playback_action(&self, event: ReceiveEvent, output_sample_rate: u32) -> (action:
        PlaybackAction)
        ensures
            action == self.playback(event, output_sample_rate),
    {
        match event {
            ReceiveEvent::Packet => match self.format {
                Some((channels, sample_rate)) => PlaybackAction::Buffer {
                    channels,
                    resample_from: if sample_rate != output_sample_rate {
                        Some(sample_rate)
                    } else {
                        None
                    },
                },
                None => PlaybackAction::Nothing,
            },
            ReceiveEvent::FormatChanged { .. } => PlaybackAction::OpenOutput,
            ReceiveEvent::Disconnected => PlaybackAction::CloseOutput,
            ReceiveEvent::Dropped(_) => PlaybackAction::Nothing,
            ReceiveEvent::Reconnected => PlaybackAction::Nothing,
        }
    }

    /// The counts after an event.
    pub open spec fn after(self, event: ReceiveEvent) -> ReceiveStats {
        match event {
            ReceiveEvent::Packet => ReceiveStats { packets: (self.packets + 1) as u64, ..self },
            ReceiveEvent::Dropped(count) => ReceiveStats {
                dropped: (self.dropped + count) as u64,
                ..self
            },
            ReceiveEvent::FormatChanged { channels, sample_rate } => ReceiveStats {
                format: Some((channels, sample_rate)),
                ..self
            },
            ReceiveEvent::Disconnected => self,
            ReceiveEvent::Reconnected => self,
        }
    }

    /// Whether the counters have room for an event.
    pub open spec fn has_room_for(self, event: ReceiveEvent) -> bool {
        match event {
            ReceiveEvent::Packet => self.packets < u64::MAX,
            ReceiveEvent::Dropped(count) => self.dropped + count <= u64::MAX,
            _ => true,
        }
    }

    /// The counts of some events from the start.
    pub open spec fn counts(self, events: Seq<ReceiveEvent>) -> bool {
        &&& self.packets == packets_in(events)
        &&& self.dropped == dropped_in(events)
        &&& self.format == format_after(events)
    }

    /// The line that tells the progress.
    pub open spec fn progress(self, publisher: Seq<char>) -> Seq<char> {
        "source="@ + publisher + " packets="@ + decimal(self.packets as nat) + " dropped="@
            + decimal(self.dropped as nat) + " format="@ + format_text(self.format)
    }

    /// Nothing received yet.
    pub fn new() -> (stats: Self)
        ensures
            stats == (ReceiveStats { packets: 0, dropped: 0, format: None }),
            stats.counts(Seq::empty()),
    {
        ReceiveStats { packets: 0, dropped: 0, format: None }
    }

    /// Takes in an event.  With every hundredth packet there is a line that
    /// tells the progress.
    pub fn handle(&mut self, event: ReceiveEvent, publisher: &str) -> (line: Option<String>)
        requires
            old(self).has_room_for(event),
        ensures
            *final(self) == old(self).after(event),
            option_text(line) == if event is Packet && final(self).packets % 100 == 0 {
                Some(final(self).progress(publisher@))
            } else {
                None
            },
    {
        match event {
            ReceiveEvent::Packet => {
                self.packets = self.packets + 1;
                if self.packets % PROGRESS_INTERVAL == 0 {
                    let mut text = "source=".to_string();
                    text.append(publisher);
                    text.append(" packets=");
                    push_decimal(&mut text, self.packets as u128);
                    text.append(" dropped=");
                    push_decimal(&mut text, self.dropped as u128);
                    text.append(" format=");
                    let format = show_format(self.format);
                    text.append(format.as_str());
                    return Some(text);
                }
            },
            ReceiveEvent::Dropped(count) => {
                self.dropped = self.dropped + count;
            },
            ReceiveEvent::FormatChanged { channels, sample_rate } => {
                self.format = Some((channels, sample_rate));
            },
            ReceiveEvent::Disconnected => {},
            ReceiveEvent::Reconnected => {},
        }
        None
    }

    /// The line that tells the outcome.
    pub fn finished_line(&self) -> (line: String)
        ensures
            line@ == "Finished: packets="@ + decimal(self.packets as nat) + ", dropped="@ + decimal(
                self.dropped as nat,
            ) + ", format="@ + format_text(self.format),
    {
        let mut text = "Finished: packets=".to_string();
        push_decimal(&mut text, self.packets as u128);
        text.append(", dropped=");
        push_decimal(&mut text, self.dropped as u128);
        text.append(", format=");
        let format = show_format(self.format);
        text.append(format.as_str());
        text
    }
}

fn show_format(format: Option<(u16, u32)>) -> (text: String)
    ensures
        text@ == format_text(format),
{
    match format {
        None => "None".to_string(),
        Some((channels, sample_rate)) => {
            let mut text = "Some((".to_string();
            push_decimal(&mut text, channels as u128);
            text.append(", ");
            push_decimal(&mut text, sample_rate as u128);
            text.append("))");
            text
        },
    }
}

impl Subscription {
    /// The line that opens the reception.
    pub fn opening_line(&self) -> (line: String)
        ensures
            line@ == "Subscribed to "@ + self.publisher@ + ", stream "@ + decimal(
                self.stream_id as nat,
            ) + "; listening on UDP port "@ + decimal(self.receive_port as nat) + " for "@
                + decimal(self.seconds as nat) + "s."@,
    {
        let mut text = "Subscribed to ".to_string();
        text.append(self.publisher.as_str());
        text.append(", stream ");
        push_decimal(&mut text, self.stream_id as u128);
        text.append("; listening on UDP port ");
        push_decimal(&mut text, self.receive_port as u128);
        text.append(" for ");
        push_decimal(&mut text, self.seconds as u128);
        text.append("s.");
        text
    }
}

/// The counts stay those of all events so far.
pub proof fn lemma_counts_follow_events(
    stats: ReceiveStats,
    events: Seq<ReceiveEvent>,
    event: ReceiveEvent,
)
    requires
        stats.counts(events),
        stats.has_room_for(event),
    ensures
        stats.after(event).counts(events.push(event)),
{
    assert(events.push(event).drop_last() =~= events);
}

// ---------------------------------------------------------------------------
// Buffering
// ---------------------------------------------------------------------------

/// The last `count` items of a sequence.
pub open spec fn newest<T>(items: Seq<T>, count: nat) -> Seq<T> {
    if items.len() <= count {
        items
    } else {
        items.skip(items.len() - count)
    }
}

/// The samples of a fifth of a second.
pub open spec fn buffer_limit(sample_rate: u32, channels: u16) -> nat {
    ((sample_rate / 5) * channels) as nat
}

/// Samples between the network and the output, as the bit patterns of
/// single-precision numbers.
pub struct JitterBuffer {
    pub samples: VecDeque<u32>,
}

impl View for JitterBuffer {
    type V = Seq<u32>;

    open spec fn view(&self) -> Seq<u32> {
        self.samples@
    }
}

impl JitterBuffer {
    /// An empty buffer.
    pub fn new() -> (buffer: Self)
        ensures
            buffer@ == Seq::<u32>::empty(),
    {
        JitterBuffer { samples: VecDeque::new() }
    }

    /// Takes in samples, and forgets the oldest ones beyond a fifth of a
    /// second.
    pub fn extend(&mut self, samples: &Vec<u32>, sample_rate: u32, channels: u16)
        ensures
            final(self)@ == newest(old(self)@ + samples@, buffer_limit(sample_rate, channels)),
    {
        let mut i: usize = 0;
        while i < samples.len()
            invariant
                i <= samples@.len(),
                self@ =~= old(self)@ + samples@.take(i as int),
            decreases samples.len() - i,
        {
            self.samples.push_back(samples[i]);
            i = i + 1;
        }
        let ghost all = old(self)@ + samples@;
        assert(self@ =~= all);
        assert((sample_rate / 5) * channels <= 0xffff_ffff * 0xffff) by (nonlinear_arith)
            requires
                sample_rate <= 0xffff_ffff,
                channels <= 0xffff,
        ;
        let limit: u64 = (sample_rate / 5) as u64 * channels as u64;
        assert(self@ =~= all.skip(all.len() - self@.len()));
        while self.samples.len() as u64 > limit
            invariant
                self@.len() <= all.len(),
                self@ =~= all.skip(all.len() - self@.len()),
                limit == buffer_limit(sample_rate, channels),
                self@.len() < all.len() ==> self@.len() >= limit,
            decreases self@.len(),
        {
            let _ = self.samples.pop_front();
        }
        assert(self@ =~= newest(all, limit as nat));
    }

    /// The oldest sample, or silence.
    pub fn next_sample(&mut self) -> (sample: u32)
        ensures
            old(self)@.len() > 0 ==> sample == old(self)@[0] && final(self)@ == old(self)@.skip(1),
            old(self)@.len() == 0 ==> sample == 0 && final(self)@ == old(self)@,
    {
        match self.samples.pop_front() {
            Some(sample) => {
                assert(self@ =~= old(self)@.skip(1));
                sample
            },
            None => 0,
        }
    }

    /// Forgets all samples.
    pub fn clear(&mut self)
        ensures
            final(self)@ == Seq::<u32>::empty(),
    {
        self.samples.clear();
    }
}

/// The buffer never holds more than a fifth of a second, and what it holds is
/// what came last.
pub proof fn lemma_buffer_is_bounded(
    held: Seq<u32>,
    samples: Seq<u32>,
    sample_rate: u32,
    channels: u16,
)
    ensures
        newest(held + samples, buffer_limit(sample_rate, channels)).len() <= buffer_limit(
            sample_rate,
            channels,
        ),
        samples.len() <= buffer_limit(sample_rate, channels) ==> newest(
            held + samples,
            buffer_limit(sample_rate, channels),
        ).skip(
            newest(held + samples, buffer_limit(sample_rate, channels)).len() - samples.len(),
        ) == samples,
{
    let limit = buffer_limit(sample_rate, channels);
    let kept = newest(held + samples, limit);
    if samples.len() <= limit {
        assert(kept.skip(kept.len() - samples.len()) =~= samples);
    }
}

/// Whatever the number of channels, the buffer holds the same time: a fifth of a
/// second of whole frames.
pub proof fn lemma_buffer_holds_a_fifth_of_a_second(sample_rate: u32, channels: u16)
    ensures
        buffer_limit(sample_rate, 1) == sample_rate / 5,
        buffer_limit(sample_rate, channels) == channels * buffer_limit(sample_rate, 1),
        buffer_limit(48_000, channels) == 9_600 * channels,
        sample_rate <= 5 * buffer_limit(sample_rate, 1) + 4,
        5 * buffer_limit(sample_rate, 1) <= sample_rate,
{
    assert(buffer_limit(sample_rate, channels) == channels * (sample_rate / 5))
        by (nonlinear_arith)
        requires
            buffer_limit(sample_rate, channels) == ((sample_rate / 5) * channels) as nat,
    ;
    assert(channels * buffer_limit(sample_rate, 1) == channels * (sample_rate / 5)) by {
        assert(buffer_limit(sample_rate, 1) == sample_rate / 5);
    }
}

/// Samples that fit are all kept, in their order.  Of more, as many as fit are
/// kept, and they are the last ones.
pub proof fn lemma_buffer_keeps_the_newest(
    held: Seq<u32>,
    samples: Seq<u32>,
    sample_rate: u32,
    channels: u16,
    frames: nat,
    i: int,
)
    requires
        frames <= sample_rate / 5,
    ensures
        ({
            let all = held + samples;
            let kept = newest(all, buffer_limit(sample_rate, channels));
            &&& all.len() <= frames * channels ==> kept == all
            &&& all.len() > (sample_rate / 5) * channels ==> kept.len() == (sample_rate / 5)
                * channels
            &&& 0 <= i < kept.len() ==> kept[i] == all[all.len() - kept.len() + i]
        }),
{
    let all = held + samples;
    assert(frames * channels <= (sample_rate / 5) * channels) by (nonlinear_arith)
        requires
            frames <= sample_rate / 5,
    ;
    assert((sample_rate / 5) * channels >= 0) by (nonlinear_arith);
}

/// The packets and the losses of two stretches add up, and the later one decides
/// the format if it sets one.
pub proof fn lemma_counts_add_up(a: Seq<ReceiveEvent>, b: Seq<ReceiveEvent>)
    ensures
        packets_in(a + b) == packets_in(a) + packets_in(b),
        dropped_in(a + b) == dropped_in(a) + dropped_in(b),
        format_after(a + b) == if format_after(b) is Some {
            format_after(b)
        } else {
            format_after(a)
        },
    decreases b.len(),
{
    if b.len() == 0 {
        assert(a + b =~= a);
    } else {
        lemma_counts_add_up(a, b.drop_last());
        assert((a + b).drop_last() =~= a + b.drop_last());
        assert((a + b).last() == b.last());
    }
}

/// A packet counts as one, a loss as the packets that it reports; a change of
/// format is remembered, and nothing else counts.
pub proof fn lemma_single_events(stats: ReceiveStats, event: ReceiveEvent)
    requires
        stats.has_room_for(event),
    ensures
        ({
            let after = stats.after(event);
            &&& after.packets - stats.packets == if event is Packet {
                1int
            } else {
                0
            }
            &&& after.dropped - stats.dropped == match event {
                ReceiveEvent::Dropped(count) => count as int,
                _ => 0,
            }
            &&& event matches ReceiveEvent::FormatChanged { channels, sample_rate }
                ==> after.format == Some((channels, sample_rate))
            &&& event !is FormatChanged ==> after.format == stats.format
        }),
        packets_in(seq![ReceiveEvent::Packet]) == 1,
        dropped_in(seq![ReceiveEvent::Packet]) == 0,
        event matches ReceiveEvent::Dropped(count) ==> dropped_in(seq![event]) == count
            && packets_in(seq![event]) == 0,
{
    let packet = seq![ReceiveEvent::Packet];
    let one = seq![event];
    assert(packet.drop_last() =~= Seq::<ReceiveEvent>::empty());
    assert(one.drop_last() =~= Seq::<ReceiveEvent>::empty());
    assert(packets_in(Seq::empty()) == 0);
    assert(dropped_in(Seq::empty()) == 0);
}

/// Packets are played once their format is known, converted exactly where their
/// rate is not that of the output; another format opens the output anew and a lost
/// connection closes it.
pub proof fn lemma_what_is_played(
    stats: ReceiveStats,
    event: ReceiveEvent,
    channels: u16,
    rate: u32,
    output: u32,
)
    ensures
        stats.format == Some((channels, rate)) && rate == output ==> stats.playback(
            ReceiveEvent::Packet,
            output,
        ) == (PlaybackAction::Buffer { channels, resample_from: None }),
        stats.format == Some((channels, rate)) && rate != output ==> stats.playback(
            ReceiveEvent::Packet,
            output,
        ) == (PlaybackAction::Buffer { channels, resample_from: Some(rate) }),
        stats.format is None ==> stats.playback(ReceiveEvent::Packet, output)
            == PlaybackAction::Nothing,
        event is FormatChanged <==> stats.playback(event, output) == PlaybackAction::OpenOutput,
        event is Disconnected <==> stats.playback(event, output) == PlaybackAction::CloseOutput,
{
}

/// A port, a time and a publisher are read like a stream number, and `--list` and
/// `--inspect` by themselves; each leaves all other options alone.
pub proof fn lemma_arguments_are_read(
    options: OptionValues,
    publisher: Seq<char>,
    port: u16,
    seconds: u64,
    rest: Seq<Seq<char>>,
)
    ensures
        asked(seq!["--publisher"@, publisher] + rest, options) == asked(
            rest,
            OptionValues { publisher: Some(publisher), ..options },
        ),
        asked(seq!["--port"@, decimal(port as nat)] + rest, options) == asked(
            rest,
            OptionValues { receive_port: port, ..options },
        ),
        asked(seq!["--seconds"@, decimal(seconds as nat)] + rest, options) == asked(
            rest,
            OptionValues { seconds, ..options },
        ),
        asked(seq!["--list"@] + rest, options) == asked(
            rest,
            OptionValues { list: true, ..options },
        ),
        asked(seq!["--inspect"@] + rest, options) == asked(
            rest,
            OptionValues { inspect: true, ..options },
        ),
        asked(seq!["--help"@] + rest, options) == Ok::<Asked, Seq<char>>(Asked::Help),
        asked(seq!["-h"@] + rest, options) == Ok::<Asked, Seq<char>>(Asked::Help),
{
    reveal_strlit("--list");
    reveal_strlit("--inspect");
    reveal_strlit("--publisher");
    reveal_strlit("--stream-id");
    reveal_strlit("--port");
    reveal_strlit("--seconds");
    reveal_strlit("--help");
    reveal_strlit("-h");
    crate::text::lemma_parse_of_decimal(port as nat, u16::MAX as nat);
    crate::text::lemma_parse_of_decimal(seconds as nat, u64::MAX as nat);
    let a = seq!["--publisher"@, publisher] + rest;
    let b = seq!["--port"@, decimal(port as nat)] + rest;
    let c = seq!["--seconds"@, decimal(seconds as nat)] + rest;
    let d = seq!["--list"@] + rest;
    let e = seq!["--inspect"@] + rest;
    let f = seq!["--help"@] + rest;
    let g = seq!["-h"@] + rest;
    assert(a.skip(2) =~= rest && a[0] == "--publisher"@ && a[1] == publisher);
    assert(b.skip(2) =~= rest && b[0] == "--port"@ && b[1] == decimal(port as nat));
    assert(c.skip(2) =~= rest && c[0] == "--seconds"@ && c[1] == decimal(seconds as nat));
    assert(d.skip(1) =~= rest && d[0] == "--list"@);
    assert(e.skip(1) =~= rest && e[0] == "--inspect"@);
    assert(f[0] == "--help"@);
    assert(g[0] == "-h"@);
    assert("--list"@.len() == 6 && "--port"@.len() == 6 && "--help"@.len() == 6);
    assert("--inspect"@.len() == 9 && "--seconds"@.len() == 9);
    assert("--publisher"@.len() == 11 && "--stream-id"@.len() == 11);
    assert("-h"@.len() == 2);
    assert("--list"@[2] == 'l' && "--port"@[2] == 'p' && "--help"@[2] == 'h');
    assert("--inspect"@[2] == 'i' && "--seconds"@[2] == 's');
    assert("--publisher"@[2] == 'p' && "--stream-id"@[2] == 's');
}

/// An argument that needs a value and is the last one is refused, and so is one
/// that is not known.
pub proof fn lemma_arguments_are_refused(options: OptionValues, flag: Seq<char>)
    ensures
        takes_value(flag) <==> flag == "--publisher"@ || flag == "--stream-id"@ || flag
            == "--port"@ || flag == "--seconds"@,
        asked(seq![flag], options) is Ok <==> flag == "--list"@ || flag == "--inspect"@ || flag
            == "--help"@ || flag == "-h"@,
        OptionValues::defaults().receive_port == 7_050,
        OptionValues::defaults().seconds == 10,
        OptionValues::defaults().names_nothing(),
        !OptionValues::defaults().list && !OptionValues::defaults().inspect,
{
    reveal_strlit("--list");
    reveal_strlit("--inspect");
    reveal_strlit("--publisher");
    reveal_strlit("--stream-id");
    reveal_strlit("--port");
    reveal_strlit("--seconds");
    reveal_strlit("--help");
    reveal_strlit("-h");
    let one = seq![flag];
    assert(one.skip(1) =~= Seq::<Seq<char>>::empty());
    assert("--list"@.len() == 6 && "--port"@.len() == 6 && "--help"@.len() == 6);
    assert("--inspect"@.len() == 9 && "--seconds"@.len() == 9);
    assert("--publisher"@.len() == 11 && "--stream-id"@.len() == 11);
    assert("-h"@.len() == 2);
    assert("--list"@[2] == 'l' && "--port"@[2] == 'p' && "--help"@[2] == 'h');
    assert("--inspect"@[2] == 'i' && "--seconds"@[2] == 's');
    let empty = Seq::<Seq<char>>::empty();
    assert(asked(empty, OptionValues { list: true, ..options }) is Ok);
    assert(asked(empty, OptionValues { inspect: true, ..options }) is Ok);
}

/// The view of the options tells all of them.
pub proof fn lemma_options_view_is_complete(a: Options, b: Options)
    requires
        a@ == b@,
    ensures
        a.list == b.list,
        a.inspect == b.inspect,
        option_text(a.publisher) == option_text(b.publisher),
        a.stream_id == b.stream_id,
        a.receive_port == b.receive_port,
        a.seconds == b.seconds,
{
}

/// A stream is named as soon as a publisher or a number is given.
pub proof fn lemma_either_names_a_stream(options: OptionValues, publisher: Seq<char>, id: u32)
    ensures
        !(OptionValues { publisher: Some(publisher), ..options }).names_nothing(),
        !(OptionValues { stream_id: Some(id), ..options }).names_nothing(),
        (OptionValues { publisher: None, stream_id: None, ..options }).names_nothing(),
{
}

/// There is room for an event exactly if the counts with it are numbers of 64 bits.
pub proof fn lemma_room_for_events(stats: ReceiveStats, event: ReceiveEvent)
    ensures
        stats.has_room_for(event) <==> stats.packets + packets_in(seq![event]) <= u64::MAX
            && stats.dropped + dropped_in(seq![event]) <= u64::MAX,
{
    let one = seq![event];
    assert(one.last() == event);
    assert(one.drop_last() =~= Seq::<ReceiveEvent>::empty());
    assert(packets_in(one.drop_last()) == 0);
    assert(dropped_in(one.drop_last()) == 0);
}

/// Some events have one count only, and different counts have different events.
pub proof fn lemma_events_fix_the_counts(
    a: ReceiveStats,
    b: ReceiveStats,
    events: Seq<ReceiveEvent>,
)
    requires
        a.counts(events),
    ensures
        b.counts(events) <==> a == b,
{
}

/// The line that lists a stream begins with its node and stream, tells where it is
/// announced from, and ends with its number.
pub proof fn lemma_listing_tells_the_stream(stream: StreamInfo, labels: Seq<char>)
    ensures
        ({
            let line = listing(stream, labels);
            let number = decimal(stream.stream_id as nat);
            &&& crate::text::starts_with_text(
                line,
                stream.node_name + " / "@ + stream.stream_name,
            )
            &&& crate::text::contains_text(
                line,
                stream.ip + ":"@ + decimal(stream.control_port as nat),
            )
            &&& crate::text::contains_text(
                line,
                decimal(stream.channel_count as nat) + "ch @ labels "@ + labels,
            )
            &&& line.skip(line.len() - number.len()) == number
        }),
{
    let line = listing(stream, labels);
    let number = decimal(stream.stream_id as nat);
    let head = stream.node_name + " / "@ + stream.stream_name;
    let channels = decimal(stream.channel_count as nat) + "ch @ labels "@ + labels;
    let address = stream.ip + ":"@ + decimal(stream.control_port as nat);
    let dash = " — "@;
    let end = " — stream "@;
    assert(line =~= head + (dash + channels + dash + address + end + number));
    crate::text::lemma_what_is_found(
        Seq::empty(),
        head,
        dash + channels + dash + address + end + number,
    );
    assert(line =~= (head + dash) + channels + (dash + address + end + number));
    crate::text::lemma_what_is_found(
        head + dash,
        channels,
        dash + address + end + number,
    );
    assert(line =~= (head + dash + channels + dash) + address + (end + number));
    crate::text::lemma_what_is_found(head + dash + channels + dash, address, end + number);
    assert(line.skip(line.len() - number.len()) =~= number);
}

/// The line that tells the progress names the source and holds both counts.
pub proof fn lemma_progress_tells_the_counts(stats: ReceiveStats, publisher: Seq<char>)
    ensures
        crate::text::starts_with_text(stats.progress(publisher), "source="@ + publisher),
        crate::text::contains_text(
            stats.progress(publisher),
            " packets="@ + decimal(stats.packets as nat) + " "@,
        ),
        crate::text::contains_text(
            stats.progress(publisher),
            " dropped="@ + decimal(stats.dropped as nat) + " "@,
        ),
{
    reveal_strlit(" ");
    reveal_strlit(" dropped=");
    reveal_strlit("dropped=");
    reveal_strlit(" format=");
    reveal_strlit("format=");
    let line = stats.progress(publisher);
    let source = "source="@ + publisher;
    let packets = " packets="@ + decimal(stats.packets as nat) + " "@;
    let dropped = " dropped="@ + decimal(stats.dropped as nat) + " "@;
    let format = format_text(stats.format);
    let after_packets = "dropped="@ + decimal(stats.dropped as nat) + " format="@ + format;
    let before_dropped = source + " packets="@ + decimal(stats.packets as nat);
    assert(line =~= source + (packets + after_packets));
    crate::text::lemma_what_is_found(Seq::empty(), source, packets + after_packets);
    assert(line =~= source + packets + after_packets);
    crate::text::lemma_what_is_found(source, packets, after_packets);
    assert(line =~= before_dropped + dropped + ("format="@ + format));
    crate::text::lemma_what_is_found(before_dropped, dropped, "format="@ + format);
}

/// A value that is no number, or too great a one, is refused with what is wrong.
pub proof fn lemma_values_are_refused(options: OptionValues, value: Seq<char>, rest: Seq<Seq<char>>)
    ensures
        parsed_unsigned(value, u32::MAX as nat) is None ==> asked(
            seq!["--stream-id"@, value] + rest,
            options,
        ) == Err::<Asked, Seq<char>>("--stream-id must be an integer"@),
        parsed_unsigned(value, u16::MAX as nat) is None ==> asked(
            seq!["--port"@, value] + rest,
            options,
        ) == Err::<Asked, Seq<char>>("--port must be a valid UDP port"@),
        parsed_unsigned(value, u64::MAX as nat) is None ==> asked(
            seq!["--seconds"@, value] + rest,
            options,
        ) == Err::<Asked, Seq<char>>("--seconds must be an integer"@),
{
    reveal_strlit("--stream-id");
    reveal_strlit("--list");
    reveal_strlit("--inspect");
    reveal_strlit("--publisher");
    reveal_strlit("--port");
    reveal_strlit("--seconds");
    let id = seq!["--stream-id"@, value] + rest;
    let port = seq!["--port"@, value] + rest;
    let seconds = seq!["--seconds"@, value] + rest;
    assert(id[0] == "--stream-id"@ && id[1] == value);
    assert(port[0] == "--port"@ && port[1] == value);
    assert(seconds[0] == "--seconds"@ && seconds[1] == value);
    assert("--stream-id"@.len() == 11 && "--publisher"@.len() == 11);
    assert("--stream-id"@[2] == 's' && "--publisher"@[2] == 'p');
    assert("--list"@.len() == 6 && "--port"@.len() == 6);
    assert("--list"@[2] == 'l' && "--port"@[2] == 'p');
    assert("--inspect"@.len() == 9 && "--seconds"@.len() == 9);
    assert("--inspect"@[2] == 'i' && "--seconds"@[2] == 's');
}

} // verus!
