//! Messages between modules: channels that pass them to receivers and keep them
//! until they are processed, handlers by message type, and counters of traffic.
//!
//! The data a message carries is JSON, held as its text.

use vstd::prelude::*;
use crate::module_errors::{ModuleError, user_message_spec};
use crate::text::{append_str, owned, str_eq};

verus! {

/// Events of the user interface.
#[derive(Debug, Clone, Copy, PartialEq, Eq, Structural)]
pub enum UIEventType {
    ButtonClick,
    TextInput,
    WindowClose,
    WindowResize,
    FocusChange,
    KeyPress,
    MouseMove,
}

/// Kinds of data synchronisation.
#[derive(Debug, Clone, Copy, PartialEq, Eq, Structural)]
pub enum DataSyncType {
    VariableUpdate,
    StateSync,
    ConfigurationChange,
    PerformanceMetrics,
}

/// Kinds of status update.
#[derive(Debug, Clone, Copy, PartialEq, Eq, Structural)]
pub enum StatusType {
    Initialization,
    Ready,
    Busy,
    Error,
    Shutdown,
}

/// Kinds of error notification.
#[derive(Debug, Clone, Copy, PartialEq, Eq, Structural)]
pub enum ErrorType {
    RuntimeError,
    CompilationError,
    CommunicationError,
    ResourceError,
    ConfigurationError,
}

/// A user-interface event.
#[derive(Debug)]
pub struct UIEventMessage {
    pub event_type: UIEventType,
    pub widget_id: String,
    pub data: String,
    pub timestamp: u64,
}

/// Data to synchronise between two modules.
#[derive(Debug)]
pub struct DataSyncMessage {
    pub sync_type: DataSyncType,
    pub data: String,
    pub target_module: String,
    pub source_module: String,
}

/// A change in a module's status.
#[derive(Debug)]
pub struct StatusUpdateMessage {
    pub status_type: StatusType,
    pub module_name: String,
    pub status: String,
    pub details: Option<String>,
}

/// An error that a module reports.
#[derive(Debug)]
pub struct ErrorMessage {
    pub error_type: ErrorType,
    pub module_name: String,
    pub message: String,
    pub details: Option<String>,
}

/// A message between modules.
#[derive(Debug)]
pub enum ModuleMessage {
    UIEvent(UIEventMessage),
    DataSync(DataSyncMessage),
    StatusUpdate(StatusUpdateMessage),
    ErrorNotification(ErrorMessage),
}

/// A message as a mathematical value.
pub enum MessageSpec {
    UIEvent(UIEventType, Seq<char>, Seq<char>, u64),
    DataSync(DataSyncType, Seq<char>, Seq<char>, Seq<char>),
    StatusUpdate(StatusType, Seq<char>, Seq<char>, Option<Seq<char>>),
    ErrorNotification(ErrorType, Seq<char>, Seq<char>, Option<Seq<char>>),
}

pub open spec fn opt_chars(o: Option<String>) -> Option<Seq<char>> {
    match o {
        Some(s) => Some(s@),
        None => None,
    }
}

pub open spec fn message_view(m: ModuleMessage) -> MessageSpec {
    match m {
        ModuleMessage::UIEvent(e) => MessageSpec::UIEvent(e.event_type, e.widget_id@, e.data@, e.timestamp),
        ModuleMessage::DataSync(d) => MessageSpec::DataSync(
            d.sync_type,
            d.data@,
            d.target_module@,
            d.source_module@,
        ),
        ModuleMessage::StatusUpdate(u) => MessageSpec::StatusUpdate(
            u.status_type,
            u.module_name@,
            u.status@,
            opt_chars(u.details),
        ),
        ModuleMessage::ErrorNotification(e) => MessageSpec::ErrorNotification(
            e.error_type,
            e.module_name@,
            e.message@,
            opt_chars(e.details),
        ),
    }
}

pub open spec fn messages_view(ms: Seq<ModuleMessage>) -> Seq<MessageSpec> {
    ms.map_values(|m: ModuleMessage| message_view(m))
}

/// The type under which a message's handler is registered.
pub open spec fn message_type(m: MessageSpec) -> Seq<char> {
    match m {
        MessageSpec::UIEvent(..) => "ui_event"@,
        MessageSpec::DataSync(..) => "data_sync"@,
        MessageSpec::StatusUpdate(..) => "status_update"@,
        MessageSpec::ErrorNotification(..) => "error_notification"@,
    }
}

fn copy_opt(o: &Option<String>) -> (r: Option<String>)
    ensures
        opt_chars(r) == opt_chars(*o),
{
    match o {
        Some(s) => Some(s.clone()),
        None => None,
    }
}

impl ModuleMessage {
    /// A copy of the message, field for field.
    pub fn duplicate(&self) -> (r: ModuleMessage)
        ensures
            message_view(r) == message_view(*self),
    {
        match self {
            ModuleMessage::UIEvent(e) => ModuleMessage::UIEvent(
                UIEventMessage {
                    event_type: e.event_type,
                    widget_id: e.widget_id.clone(),
                    data: e.data.clone(),
                    timestamp: e.timestamp,
                },
            ),
            ModuleMessage::DataSync(d) => ModuleMessage::DataSync(
                DataSyncMessage {
                    sync_type: d.sync_type,
                    data: d.data.clone(),
                    target_module: d.target_module.clone(),
                    source_module: d.source_module.clone(),
                },
            ),
            ModuleMessage::StatusUpdate(u) => ModuleMessage::StatusUpdate(
                StatusUpdateMessage {
                    status_type: u.status_type,
                    module_name: u.module_name.clone(),
                    status: u.status.clone(),
                    details: copy_opt(&u.details),
                },
            ),
            ModuleMessage::ErrorNotification(e) => ModuleMessage::ErrorNotification(
                ErrorMessage {
                    error_type: e.error_type,
                    module_name: e.module_name.clone(),
                    message: e.message.clone(),
                    details: copy_opt(&e.details),
                },
            ),
        }
    }

    /// The type under which the message's handler is registered.
    pub fn kind_name(&self) -> (r: &'static str)
        ensures
            r@ == message_type(message_view(*self)),
    {
        match self {
            ModuleMessage::UIEvent(_) => "ui_event",
            ModuleMessage::DataSync(_) => "data_sync",
            ModuleMessage::StatusUpdate(_) => "status_update",
            ModuleMessage::ErrorNotification(_) => "error_notification",
        }
    }
}

/// Something that receives the messages sent on a channel.
pub trait MessageReceiver {
    fn receive(&self, message: &ModuleMessage) -> Result<(), ModuleError>;

    fn can_handle(&self, message_type: &str) -> bool;
}

/// Something that handles messages of one type.
pub trait MessageHandler {
    fn handle_message(&mut self, message: &ModuleMessage) -> Result<(), ModuleError>;

    fn handler_name(&self) -> &str;
}

/// The parts joined with the separator between each two.
pub open spec fn join_spec(parts: Seq<Seq<char>>, sep: Seq<char>) -> Seq<char>
    decreases parts.len(),
{
    if parts.len() == 0 {
        Seq::empty()
    } else if parts.len() == 1 {
        parts[0]
    } else {
        join_spec(parts.drop_last(), sep) + sep + parts.last()
    }
}

/// Joins the parts with the separator between each two.
pub fn join(parts: &Vec<String>, sep: &str) -> (r: String)
    ensures
        r@ == join_spec(parts@.map_values(|p: String| p@), sep@),
{
    let ghost ps = parts@.map_values(|p: String| p@);
    let mut out = String::new();
    let mut i: usize = 0;
    while i < parts.len()
        invariant
            i <= parts@.len(),
            ps == parts@.map_values(|p: String| p@),
            out@ == join_spec(ps.take(i as int), sep@),
        decreases parts@.len() - i,
    {
        assert(ps.take(i + 1).drop_last() =~= ps.take(i as int));
        if i > 0 {
            append_str(&mut out, sep);
        }
        append_str(&mut out, parts[i].as_str());
        i = i + 1;
    }
    assert(ps.take(i as int) =~= ps);
    out
}

/// The error for a failure of the communication system itself.
pub open spec fn communication_error(e: ModuleError, message: Seq<char>) -> bool {
    e matches ModuleError::InitializationFailed { module, error } && module@ == "communication"@
        && error@ == message
}

/// The report of the receivers that failed, one line each, in order.
pub open spec fn failure_lines(answers: Seq<Result<(), ModuleError>>) -> Seq<Seq<char>>
    decreases answers.len(),
{
    if answers.len() == 0 {
        Seq::empty()
    } else {
        let prev = failure_lines(answers.drop_last());
        match answers.last() {
            Err(e) => prev.push("Receiver error: "@ + user_message_spec(e)),
            Ok(_) => prev,
        }
    }
}

/// Whether `r` is what a channel named `name` reports for its receivers' answers:
/// success when none failed, else an initialization failure of the channel whose
/// text joins the failure lines with "; ".
pub open spec fn is_send_outcome(
    r: Result<(), ModuleError>,
    name: Seq<char>,
    answers: Seq<Result<(), ModuleError>>,
) -> bool {
    if failure_lines(answers).len() == 0 {
        r is Ok
    } else {
        r matches Err(ModuleError::InitializationFailed { module, error }) && module@ == name && error@
            == join_spec(failure_lines(answers), "; "@)
    }
}

/// What a channel reports for its receivers' answers to a message.
pub fn send_outcome(channel_name: &str, answers: &Vec<Result<(), ModuleError>>) -> (r: Result<(), ModuleError>)
    ensures
        is_send_outcome(r, channel_name@, answers@),
{
    let mut errors: Vec<String> = Vec::new();
    let mut i: usize = 0;
    while i < answers.len()
        invariant
            i <= answers@.len(),
            errors@.map_values(|p: String| p@) == failure_lines(answers@.take(i as int)),
        decreases answers@.len() - i,
    {
        assert(answers@.take(i + 1).drop_last() =~= answers@.take(i as int));
        match &answers[i] {
            Ok(()) => {},
            Err(e) => {
                let mut line = owned("Receiver error: ");
                append_str(&mut line, e.to_display_string().as_str());
                let ghost before = errors@.map_values(|p: String| p@);
                errors.push(line);
                assert(errors@.map_values(|p: String| p@) =~= before.push(line@));
            },
        }
        i = i + 1;
    }
    assert(answers@.take(i as int) =~= answers@);
    if errors.len() > 0 {
        Err(ModuleError::InitializationFailed { module: owned(channel_name), error: join(&errors, "; ") })
    } else {
        Ok(())
    }
}

/// A channel: the messages sent on it and not yet processed, and its receivers.
pub struct ModuleChannel<R: MessageReceiver> {
    pub name: String,
    sender: Vec<ModuleMessage>,
    receivers: Vec<R>,
}

impl<R: MessageReceiver> ModuleChannel<R> {
    /// The messages sent and not yet taken, in order.
    pub closed spec fn pending(&self) -> Seq<MessageSpec> {
        messages_view(self.sender@)
    }

    /// The channel's name.
    pub closed spec fn name_view(&self) -> Seq<char> {
        self.name@
    }

    /// How many receivers the channel has.
    pub closed spec fn receiver_count(&self) -> nat {
        self.receivers@.len()
    }

    pub fn new(name: String) -> (r: Self)
        ensures
            r.name_view() == name@,
            r.pending() == Seq::<MessageSpec>::empty(),
            r.receiver_count() == 0,
    {
        let r = ModuleChannel { name, sender: Vec::new(), receivers: Vec::new() };
        assert(r.pending() =~= Seq::<MessageSpec>::empty());
        r
    }

    /// Passes a message to every receiver, in order. If any fails, the failures are
    /// reported for the channel (see `send_outcome`) and the message is dropped; else
    /// it is kept until processed. What each receiver answers is its own affair: the
    /// result is `send_outcome` of the answers, whatever they were.
    pub fn send(&mut self, message: ModuleMessage) -> (r: Result<(), ModuleError>)
        ensures
            final(self).name_view() == old(self).name_view(),
            final(self).receiver_count() == old(self).receiver_count(),
            exists|answers: Seq<Result<(), ModuleError>>|
                answers.len() == old(self).receiver_count() && #[trigger] is_send_outcome(
                    r,
                    old(self).name_view(),
                    answers,
                ),
            r is Ok ==> final(self).pending() == old(self).pending().push(message_view(message)),
            r is Err ==> final(self).pending() == old(self).pending(),
    {
        let n = self.receivers.len();
        let mut answers: Vec<Result<(), ModuleError>> = Vec::new();
        let mut i: usize = 0;
        while i < n
            invariant
                n == self.receivers@.len(),
                i <= n,
                answers@.len() == i,
            decreases n - i,
        {
            let a = self.receivers[i].receive(&message);
            answers.push(a);
            i = i + 1;
        }
        let outcome = send_outcome(self.name.as_str(), &answers);
        assert(is_send_outcome(outcome, self.name@, answers@));
        if outcome.is_err() {
            assert(is_send_outcome(outcome, old(self).name_view(), answers@));
            return outcome;
        }
        assert(is_send_outcome(Ok(()), old(self).name_view(), answers@));
        let ghost before = self.sender@;
        self.sender.push(message);
        assert(messages_view(self.sender@) =~= messages_view(before).push(message_view(message)));
        Ok(())
    }

    pub fn add_receiver(&mut self, receiver: R)
        ensures
            final(self).name_view() == old(self).name_view(),
            final(self).pending() == old(self).pending(),
            final(self).receiver_count() == old(self).receiver_count() + 1,
    {
        self.receivers.push(receiver);
    }

    /// Takes the pending messages, leaving none.
    pub fn get_messages(&mut self) -> (r: Vec<ModuleMessage>)
        ensures
            messages_view(r@) == old(self).pending(),
            final(self).pending() == Seq::<MessageSpec>::empty(),
            final(self).name_view() == old(self).name_view(),
            final(self).receiver_count() == old(self).receiver_count(),
    {
        let mut messages: Vec<ModuleMessage> = Vec::new();
        std::mem::swap(&mut messages, &mut self.sender);
        assert(messages_view(self.sender@) =~= Seq::empty());
        messages
    }
}

/// Counters of the messages sent and received and of the bytes moved.
#[derive(Debug, Clone, Copy, PartialEq, Eq, Structural)]
pub struct PerformanceMetrics {
    pub messages_sent: u64,
    pub messages_received: u64,
    pub bytes_transferred: u64,
    pub error_count: u64,
}

impl Default for PerformanceMetrics {
    fn default() -> (r: Self)
        ensures
            r == (PerformanceMetrics { messages_sent: 0, messages_received: 0, bytes_transferred: 0, error_count: 0 }),
    {
        PerformanceMetrics { messages_sent: 0, messages_received: 0, bytes_transferred: 0, error_count: 0 }
    }
}

/// The bytes a sent message is counted as.
pub open spec fn message_bytes() -> u64 {
    256
}

/// The errors for the messages of one channel that no handler takes, in order.
pub open spec fn unhandled(ms: Seq<MessageSpec>, handlers: Seq<Seq<char>>, channel: Seq<char>) -> Seq<Seq<char>>
    decreases ms.len(),
{
    if ms.len() == 0 {
        Seq::empty()
    } else if handlers.contains(message_type(ms.last())) {
        unhandled(ms.drop_last(), handlers, channel)
    } else {
        unhandled(ms.drop_last(), handlers, channel).push(
            "No handler for message type '"@ + message_type(ms.last()) + "' on channel '"@ + channel + "'"@,
        )
    }
}

/// The errors for the unhandled messages of all channels, channel by channel.
pub open spec fn all_unhandled(chs: Seq<(Seq<char>, Seq<MessageSpec>)>, handlers: Seq<Seq<char>>) -> Seq<Seq<char>>
    decreases chs.len(),
{
    if chs.len() == 0 {
        Seq::empty()
    } else {
        all_unhandled(chs.drop_last(), handlers) + unhandled(chs.last().1, handlers, chs.last().0)
    }
}

/// The number of messages pending in all channels.
pub open spec fn pending_total(chs: Seq<(Seq<char>, Seq<MessageSpec>)>) -> nat
    decreases chs.len(),
{
    if chs.len() == 0 {
        0
    } else {
        pending_total(chs.drop_last()) + chs.last().1.len()
    }
}

proof fn lemma_pending_prefix(chs: Seq<(Seq<char>, Seq<MessageSpec>)>, i: int)
    requires
        0 <= i <= chs.len(),
    ensures
        pending_total(chs.take(i)) <= pending_total(chs),
    decreases chs.len(),
{
    if i < chs.len() {
        assert(chs.drop_last().take(i) =~= chs.take(i));
        lemma_pending_prefix(chs.drop_last(), i);
    } else {
        assert(chs.take(i) =~= chs);
    }
}

/// A channel after a message was sent on it.
pub open spec fn sent(c: (Seq<char>, Seq<MessageSpec>), m: MessageSpec) -> (Seq<char>, Seq<MessageSpec>) {
    (c.0, c.1.push(m))
}

/// A channel after a message was sent on it, kept or refused.
pub open spec fn sent_or_kept(after: (Seq<char>, Seq<MessageSpec>), before: (Seq<char>, Seq<MessageSpec>), m: MessageSpec) -> bool {
    after == before || after == sent(before, m)
}

/// The report of the channels whose send failed, one line each, in order.
pub open spec fn broadcast_lines(outs: Seq<(Seq<char>, Result<(), ModuleError>)>) -> Seq<Seq<char>>
    decreases outs.len(),
{
    if outs.len() == 0 {
        Seq::empty()
    } else {
        let prev = broadcast_lines(outs.drop_last());
        match outs.last().1 {
            Err(e) => prev.push("Channel '"@ + outs.last().0 + "' error: "@ + user_message_spec(e)),
            Ok(_) => prev,
        }
    }
}

/// Whether `r` is what a broadcast reports for the channels' outcomes: success when
/// none failed, else a failure of the communication system whose text joins the
/// failure lines with "; ".
pub open spec fn is_broadcast_outcome(r: Result<(), ModuleError>, outs: Seq<(Seq<char>, Result<(), ModuleError>)>) -> bool {
    if broadcast_lines(outs).len() == 0 {
        r is Ok
    } else {
        communication_error_result(r, join_spec(broadcast_lines(outs), "; "@))
    }
}

/// `r` is a failure of the communication system with the message.
pub open spec fn communication_error_result(r: Result<(), ModuleError>, message: Seq<char>) -> bool {
    r matches Err(e) && communication_error(e, message)
}

/// What a broadcast reports, given each channel's name and the outcome of sending on it.
pub fn broadcast_outcome(outcomes: &Vec<(String, Result<(), ModuleError>)>) -> (r: Result<(), ModuleError>)
    ensures
        is_broadcast_outcome(r, outcomes@.map_values(|p: (String, Result<(), ModuleError>)| (p.0@, p.1))),
{
    proof {
        reveal_strlit("communication");
    }
    let ghost outs = outcomes@.map_values(|p: (String, Result<(), ModuleError>)| (p.0@, p.1));
    let mut errors: Vec<String> = Vec::new();
    let mut i: usize = 0;
    while i < outcomes.len()
        invariant
            i <= outcomes@.len(),
            outs == outcomes@.map_values(|p: (String, Result<(), ModuleError>)| (p.0@, p.1)),
            errors@.map_values(|p: String| p@) == broadcast_lines(outs.take(i as int)),
        decreases outcomes@.len() - i,
    {
        assert(outs.take(i + 1).drop_last() =~= outs.take(i as int));
        assert(outs.take(i + 1).last() == (outcomes@[i as int].0@, outcomes@[i as int].1));
        match &outcomes[i].1 {
            Ok(()) => {},
            Err(e) => {
                let mut line = owned("Channel '");
                append_str(&mut line, outcomes[i].0.as_str());
                append_str(&mut line, "' error: ");
                append_str(&mut line, e.to_display_string().as_str());
                let ghost before = errors@.map_values(|p: String| p@);
                errors.push(line);
                assert(errors@.map_values(|p: String| p@) =~= before.push(line@));
            },
        }
        i = i + 1;
    }
    assert(outs.take(i as int) =~= outs);
    if errors.len() > 0 {
        Err(ModuleError::InitializationFailed { module: owned("communication"), error: join(&errors, "; ") })
    } else {
        Ok(())
    }
}

/// The manager of channels and handlers.
pub struct ModuleCommunication<R: MessageReceiver, H: MessageHandler> {
    channels: Vec<ModuleChannel<R>>,
    message_handlers: Vec<(String, H)>,
    performance_metrics: PerformanceMetrics,
}

impl<R: MessageReceiver, H: MessageHandler> ModuleCommunication<R, H> {
    /// The channels, each with its name and pending messages, in order of creation.
    pub closed spec fn channels(&self) -> Seq<(Seq<char>, Seq<MessageSpec>)> {
        self.channels@.map_values(|c: ModuleChannel<R>| (c.name@, c.pending()))
    }

    /// The message types with a handler, in order of registration.
    pub closed spec fn handlers(&self) -> Seq<Seq<char>> {
        self.message_handlers@.map_values(|h: (String, H)| h.0@)
    }

    pub closed spec fn metrics(&self) -> PerformanceMetrics {
        self.performance_metrics
    }

    pub fn new() -> (r: Self)
        ensures
            r.channels().len() == 0,
            r.handlers().len() == 0,
            r.metrics() == (PerformanceMetrics { messages_sent: 0, messages_received: 0, bytes_transferred: 0, error_count: 0 }),
    {
        ModuleCommunication {
            channels: Vec::new(),
            message_handlers: Vec::new(),
            performance_metrics: PerformanceMetrics {
                messages_sent: 0,
                messages_received: 0,
                bytes_transferred: 0,
                error_count: 0,
            },
        }
    }

    fn find_channel(&self, name: &str) -> (r: Option<usize>)
        ensures
            match r {
                Some(i) => i < self.channels().len() && self.channels()[i as int].0 == name@,
                None => forall|j: int| 0 <= j < self.channels().len() ==> #[trigger] self.channels()[j].0 != name@,
            },
    {
        let mut i: usize = 0;
        while i < self.channels.len()
            invariant
                i <= self.channels@.len(),
                forall|j: int| 0 <= j < i ==> #[trigger] self.channels()[j].0 != name@,
            decreases self.channels@.len() - i,
        {
            if str_eq(self.channels[i].name.as_str(), name) {
                return Some(i);
            }
            i = i + 1;
        }
        None
    }

    /// Opens a channel with a new name.
    pub fn create_channel(&mut self, name: String) -> (r: Result<(), ModuleError>)
        ensures
            (exists|j: int| 0 <= j < old(self).channels().len() && #[trigger] old(self).channels()[j].0 == name@)
                ==> (r matches Err(e) && communication_error(e, "Channel '"@ + name@ + "' already exists"@)
                && final(self).channels() == old(self).channels()),
            !(exists|j: int| 0 <= j < old(self).channels().len() && #[trigger] old(self).channels()[j].0 == name@)
                ==> (r is Ok && final(self).channels() == old(self).channels().push((name@, Seq::empty()))),
            final(self).handlers() == old(self).handlers(),
            final(self).metrics() == old(self).metrics(),
    {
        proof {
            reveal_strlit("communication");
        }
        match self.find_channel(name.as_str()) {
            Some(_) => {
                let mut m = owned("Channel '");
                append_str(&mut m, name.as_str());
                append_str(&mut m, "' already exists");
                Err(ModuleError::InitializationFailed { module: owned("communication"), error: m })
            },
            None => {
                let ghost before = self.channels();
                let channel = ModuleChannel::new(name);
                self.channels.push(channel);
                assert(self.channels() =~= before.push((name@, Seq::empty())));
                Ok(())
            },
        }
    }

    /// Sends a message on the named channel, counting it as sent.
    pub fn send_to_channel(&mut self, channel_name: &str, message: ModuleMessage) -> (r: Result<(), ModuleError>)
        requires
            old(self).metrics().messages_sent < u64::MAX,
            old(self).metrics().bytes_transferred + message_bytes() <= u64::MAX,
        ensures
            final(self).handlers() == old(self).handlers(),
            (forall|j: int| 0 <= j < old(self).channels().len() ==> #[trigger] old(self).channels()[j].0 != channel_name@)
                ==> (r matches Err(e) && communication_error(e, "Channel '"@ + channel_name@ + "' not found"@)
                && final(self).channels() == old(self).channels() && final(self).metrics() == old(self).metrics()),
            (exists|j: int| 0 <= j < old(self).channels().len() && #[trigger] old(self).channels()[j].0 == channel_name@)
                ==> {
                &&& final(self).metrics() == (PerformanceMetrics {
                    messages_sent: (old(self).metrics().messages_sent + 1) as u64,
                    bytes_transferred: (old(self).metrics().bytes_transferred + message_bytes()) as u64,
                    ..old(self).metrics()
                })
                &&& exists|j: int|
                    0 <= j < old(self).channels().len() && #[trigger] old(self).channels()[j].0 == channel_name@
                        && (r is Ok ==> final(self).channels() == old(self).channels().update(
                        j,
                        (channel_name@, old(self).channels()[j].1.push(message_view(message))),
                    )) && (r is Err ==> final(self).channels() == old(self).channels())
            },
    {
        proof {
            reveal_strlit("communication");
        }
        match self.find_channel(channel_name) {
            Some(i) => {
                self.performance_metrics.messages_sent = self.performance_metrics.messages_sent + 1;
                self.performance_metrics.bytes_transferred = self.performance_metrics.bytes_transferred + 256;
                let ghost before = self.channels();
                let mut channel = self.channels.remove(i);
                let r = channel.send(message);
                self.channels.insert(i, channel);
                proof {
                    if r is Ok {
                        assert(self.channels() =~= before.update(
                            i as int,
                            (channel_name@, before[i as int].1.push(message_view(message))),
                        ));
                    } else {
                        assert(self.channels() =~= before);
                    }
                }
                r
            },
            None => {
                let mut m = owned("Channel '");
                append_str(&mut m, channel_name);
                append_str(&mut m, "' not found");
                Err(ModuleError::InitializationFailed { module: owned("communication"), error: m })
            },
        }
    }

    /// Registers a handler under a new name.
    pub fn register_handler(&mut self, name: String, handler: H) -> (r: Result<(), ModuleError>)
        ensures
            old(self).handlers().contains(name@) ==> (r matches Err(e) && communication_error(
                e,
                "Handler '"@ + name@ + "' already registered"@,
            ) && final(self).handlers() == old(self).handlers()),
            !old(self).handlers().contains(name@) ==> (r is Ok && final(self).handlers() == old(
                self,
            ).handlers().push(name@)),
            final(self).channels() == old(self).channels(),
            final(self).metrics() == old(self).metrics(),
    {
        proof {
            reveal_strlit("communication");
        }
        if self.has_handler(name.as_str()) {
            let mut m = owned("Handler '");
            append_str(&mut m, name.as_str());
            append_str(&mut m, "' already registered");
            return Err(ModuleError::InitializationFailed { module: owned("communication"), error: m });
        }
        let ghost before = self.handlers();
        self.message_handlers.push((name, handler));
        assert(self.handlers() =~= before.push(name@));
        Ok(())
    }

    fn has_handler(&self, name: &str) -> (r: bool)
        ensures
            r == self.handlers().contains(name@),
    {
        let mut i: usize = 0;
        while i < self.message_handlers.len()
            invariant
                i <= self.message_handlers@.len(),
                forall|j: int| 0 <= j < i ==> #[trigger] self.handlers()[j] != name@,
            decreases self.message_handlers@.len() - i,
        {
            if str_eq(self.message_handlers[i].0.as_str(), name) {
                assert(self.handlers()[i as int] == name@);
                return true;
            }
            i = i + 1;
        }
        false
    }

    /// Takes the pending messages of every channel, counting each as received. A
    /// message whose type has no handler is an error; all such errors are reported
    /// together.
    pub fn process_messages(&mut self) -> (r: Result<(), ModuleError>)
        requires
            old(self).metrics().messages_received + pending_total(old(self).channels()) <= u64::MAX,
        ensures
            final(self).channels() == old(self).channels().map_values(
                |c: (Seq<char>, Seq<MessageSpec>)| (c.0, Seq::<MessageSpec>::empty()),
            ),
            final(self).handlers() == old(self).handlers(),
            final(self).metrics() == (PerformanceMetrics {
                messages_received: (old(self).metrics().messages_received + pending_total(old(self).channels())) as u64,
                ..old(self).metrics()
            }),
            all_unhandled(old(self).channels(), old(self).handlers()).len() == 0 ==> r is Ok,
            all_unhandled(old(self).channels(), old(self).handlers()).len() > 0 ==> (r matches Err(e)
                && communication_error(e, join_spec(all_unhandled(old(self).channels(), old(self).handlers()), "; "@))),
    {
        proof {
            reveal_strlit("communication");
        }
        let ghost chs = self.channels();
        let ghost hs = self.handlers();
        let ghost m0 = self.metrics();
        let mut errors: Vec<String> = Vec::new();
        let mut i: usize = 0;
        while i < self.channels.len()
            invariant
                i <= self.channels@.len(),
                self.channels@.len() == chs.len(),
                hs == self.handlers(),
                forall|j: int| 0 <= j < i ==> #[trigger] self.channels()[j] == (chs[j].0, Seq::<MessageSpec>::empty()),
                forall|j: int| i <= j < chs.len() ==> #[trigger] self.channels()[j] == chs[j],
                errors@.map_values(|e: String| e@) == all_unhandled(chs.take(i as int), hs),
                self.metrics() == (PerformanceMetrics {
                    messages_received: (m0.messages_received + pending_total(chs.take(i as int))) as u64,
                    ..m0
                }),
                m0.messages_received + pending_total(chs) <= u64::MAX,
            decreases self.channels@.len() - i,
        {
            assert(chs.take(i + 1).drop_last() =~= chs.take(i as int));
            proof {
                lemma_pending_prefix(chs, i + 1);
            }
            let ghost before = self.channels@;
            assert(self.channels()[i as int] == chs[i as int]);
            let mut channel = self.channels.remove(i);
            let ghost mid = self.channels@;
            assert(channel == before[i as int]);
            let messages = channel.get_messages();
            let ghost ms = messages_view(messages@);
            assert(ms == chs[i as int].1);
            let ghost e0 = errors@.map_values(|e: String| e@);
            let ghost r0 = self.performance_metrics.messages_received;
            let mut k: usize = 0;
            while k < messages.len()
                invariant
                    k <= messages@.len(),
                    ms == messages_view(messages@),
                    self.channels@ == mid,
                    hs == self.handlers(),
                    errors@.map_values(|e: String| e@) == e0 + unhandled(ms.take(k as int), hs, channel.name@),
                    self.performance_metrics == (PerformanceMetrics { messages_received: (r0 + k) as u64, ..m0 }),
                    r0 + ms.len() <= u64::MAX,
                decreases messages@.len() - k,
            {
                assert(ms.take(k + 1).drop_last() =~= ms.take(k as int));
                self.performance_metrics.messages_received = self.performance_metrics.messages_received + 1;
                let t = messages[k].kind_name();
                if !self.has_handler(t) {
                    let mut line = owned("No handler for message type '");
                    append_str(&mut line, t);
                    append_str(&mut line, "' on channel '");
                    append_str(&mut line, channel.name.as_str());
                    append_str(&mut line, "'");
                    let ghost eb = errors@;
                    errors.push(line);
                    assert(errors@.map_values(|e: String| e@) =~= eb.map_values(|e: String| e@).push(line@));
                }
                assert(errors@.map_values(|e: String| e@) =~= e0 + unhandled(ms.take(k + 1), hs, channel.name@));
                k = k + 1;
            }
            assert(ms.take(k as int) =~= ms);
            self.channels.insert(i, channel);
            assert(self.channels@ =~= before.update(i as int, self.channels@[i as int]));
            assert(self.channels()[i as int] == (chs[i as int].0, Seq::<MessageSpec>::empty()));
            assert forall|j: int| 0 <= j < chs.len() && j != i implies #[trigger] self.channels()[j] == before.map_values(
                |c: ModuleChannel<R>| (c.name@, c.pending()),
            )[j] by {}
            assert(all_unhandled(chs.take(i + 1), hs) == all_unhandled(chs.take(i as int), hs) + unhandled(
                chs[i as int].1,
                hs,
                chs[i as int].0,
            ));
            assert(errors@.map_values(|e: String| e@) =~= all_unhandled(chs.take(i + 1), hs));
            i = i + 1;
        }
        assert(chs.take(i as int) =~= chs);
        assert(self.channels() =~= chs.map_values(
            |c: (Seq<char>, Seq<MessageSpec>)| (c.0, Seq::<MessageSpec>::empty()),
        ));
        if errors.len() > 0 {
            return Err(
                ModuleError::InitializationFailed { module: owned("communication"), error: join(&errors, "; ") },
            );
        }
        Ok(())
    }

    pub fn get_performance_metrics(&self) -> (r: PerformanceMetrics)
        ensures
            r == self.metrics(),
    {
        self.performance_metrics
    }

    pub fn reset_metrics(&mut self)
        ensures
            final(self).metrics() == (PerformanceMetrics {
                messages_sent: 0,
                messages_received: 0,
                bytes_transferred: 0,
                error_count: 0,
            }),
            final(self).channels() == old(self).channels(),
            final(self).handlers() == old(self).handlers(),
    {
        self.performance_metrics = PerformanceMetrics::default();
    }

    /// Sends a copy of the message on every channel, in order; the channels that
    /// fail are reported together.
    pub fn broadcast(&mut self, message: ModuleMessage) -> (r: Result<(), ModuleError>)
        ensures
            final(self).channels().len() == old(self).channels().len(),
            exists|outs: Seq<(Seq<char>, Result<(), ModuleError>)>|
                {
                    &&& outs.len() == old(self).channels().len()
                    &&& #[trigger] is_broadcast_outcome(r, outs)
                    &&& forall|j: int|
                        0 <= j < outs.len() ==> #[trigger] outs[j].0 == old(self).channels()[j].0
                            && final(self).channels()[j] == (if outs[j].1 is Ok {
                            sent(old(self).channels()[j], message_view(message))
                        } else {
                            old(self).channels()[j]
                        })
                },
            final(self).handlers() == old(self).handlers(),
            final(self).metrics() == old(self).metrics(),
    {
        let ghost chs = self.channels();
        let ghost mv = message_view(message);
        let mut results: Vec<(String, Result<(), ModuleError>)> = Vec::new();
        let mut i: usize = 0;
        while i < self.channels.len()
            invariant
                i <= self.channels@.len(),
                self.channels@.len() == chs.len(),
                results@.len() == i,
                mv == message_view(message),
                self.handlers() == old(self).handlers(),
                self.metrics() == old(self).metrics(),
                chs == old(self).channels(),
                forall|j: int| i <= j < chs.len() ==> #[trigger] self.channels()[j] == chs[j],
                forall|j: int|
                    0 <= j < i ==> #[trigger] results@[j].0@ == chs[j].0 && self.channels()[j] == (if results@[j].1 is Ok {
                        sent(chs[j], mv)
                    } else {
                        chs[j]
                    }),
            decreases self.channels@.len() - i,
        {
            let ghost before = self.channels();
            let ghost bv = self.channels@;
            assert(self.channels()[i as int] == chs[i as int]);
            let mut channel = self.channels.remove(i);
            assert(channel == bv[i as int]);
            let copy = message.duplicate();
            let r = channel.send(copy);
            let name = channel.name.clone();
            self.channels.insert(i, channel);
            assert(self.channels@ =~= bv.update(i as int, self.channels@[i as int]));
            assert(self.channels().len() == chs.len());
            assert(self.channels()[i as int] == (if r is Ok {
                sent(chs[i as int], mv)
            } else {
                chs[i as int]
            }));
            assert forall|j: int| 0 <= j < chs.len() && j != i implies #[trigger] self.channels()[j] == before[j] by {
            }
            results.push((name, r));
            i = i + 1;
        }
        let ghost outs = results@.map_values(|p: (String, Result<(), ModuleError>)| (p.0@, p.1));
        let outcome = broadcast_outcome(&results);
        assert(outs.len() == chs.len());
        assert forall|j: int| 0 <= j < outs.len() implies #[trigger] outs[j].0 == chs[j].0 && self.channels()[j] == (
        if outs[j].1 is Ok {
            sent(chs[j], mv)
        } else {
            chs[j]
        }) by {
            assert(results@[j].0@ == chs[j].0);
        }
        assert(is_broadcast_outcome(outcome, outs));
        outcome
    }
}

impl<R: MessageReceiver, H: MessageHandler> Default for ModuleCommunication<R, H> {
    fn default() -> (r: Self)
        ensures
            r.channels().len() == 0,
            r.handlers().len() == 0,
            r.metrics() == (PerformanceMetrics { messages_sent: 0, messages_received: 0, bytes_transferred: 0, error_count: 0 }),
    {
        Self::new()
    }
}

} // verus!
