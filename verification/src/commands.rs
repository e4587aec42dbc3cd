//! The decision side of the control surface: composing the message a
//! client is asked to send from the form's state, and logging the
//! outcome of each synchronous engine command.

use vstd::prelude::*;

use crate::hub::SimulationData;
use crate::types::{
    ClientBody, ClientBodyView, ClientCommunicationBody, ClientCommunicationBodyView,
    ClientContentBody, ClientContentBodyView, CommunicationMessage, CommunicationMessageView,
    LogColor, LogEntryView,
};

verus! {

use vstd::string::StringExecFns;

use crate::text::{spec_decimal, u8_to_string};

/// The choice of the request type in the control form.
#[derive(Clone, Copy, Debug, PartialEq, Eq, Structural)]
pub enum MessageChoice {
    NotChosen,
    ReqServerType,
    Content,
    Communication,
}

/// The choice of the content request in the control form.
#[derive(Clone, Copy, Debug, PartialEq, Eq, Structural)]
pub enum ContentChoice {
    NotChosen,
    ReqFilesList,
    ReqFile,
}

/// The choice of the communication request in the control form.
#[derive(Clone, Copy, Debug, PartialEq, Eq, Structural)]
pub enum CommunicationChoice {
    NotChosen,
    ReqRegistrationToChat,
    MessageSend,
    ReqClientsList,
}

impl Default for MessageChoice {
    /// No request type chosen yet.
    fn default() -> (r: Self)
        ensures
            r == MessageChoice::NotChosen,
    {
        MessageChoice::NotChosen
    }
}

impl Default for ContentChoice {
    /// No content request chosen yet.
    fn default() -> (r: Self)
        ensures
            r == ContentChoice::NotChosen,
    {
        ContentChoice::NotChosen
    }
}

impl Default for CommunicationChoice {
    /// No communication request chosen yet.
    fn default() -> (r: Self)
        ensures
            r == CommunicationChoice::NotChosen,
    {
        CommunicationChoice::NotChosen
    }
}

/// The display name of a request-type choice.
pub open spec fn spec_message_choice_label(c: MessageChoice) -> Seq<char> {
    match c {
        MessageChoice::NotChosen => "Choose request type"@,
        MessageChoice::ReqServerType => "Request server type"@,
        MessageChoice::Content => "Content request"@,
        MessageChoice::Communication => "Communication request"@,
    }
}

/// The display name of a content-request choice.
pub open spec fn spec_content_choice_label(c: ContentChoice) -> Seq<char> {
    match c {
        ContentChoice::NotChosen => "Choose content request"@,
        ContentChoice::ReqFilesList => "Request files list"@,
        ContentChoice::ReqFile => "Request file"@,
    }
}

/// The display name of a communication-request choice.
pub open spec fn spec_communication_choice_label(c: CommunicationChoice) -> Seq<char> {
    match c {
        CommunicationChoice::NotChosen => "Choose communication request"@,
        CommunicationChoice::ReqRegistrationToChat => "Request registration to chat"@,
        CommunicationChoice::MessageSend => "Send message"@,
        CommunicationChoice::ReqClientsList => "Request clients list"@,
    }
}

impl MessageChoice {
    /// The display name of this choice.
    pub fn label(self) -> (r: &'static str)
        ensures
            r@ == spec_message_choice_label(self),
    {
        match self {
            MessageChoice::NotChosen => "Choose request type",
            MessageChoice::ReqServerType => "Request server type",
            MessageChoice::Content => "Content request",
            MessageChoice::Communication => "Communication request",
        }
    }
}

impl ContentChoice {
    /// The display name of this choice.
    pub fn label(self) -> (r: &'static str)
        ensures
            r@ == spec_content_choice_label(self),
    {
        match self {
            ContentChoice::NotChosen => "Choose content request",
            ContentChoice::ReqFilesList => "Request files list",
            ContentChoice::ReqFile => "Request file",
        }
    }
}

impl CommunicationChoice {
    /// The display name of this choice.
    pub fn label(self) -> (r: &'static str)
        ensures
            r@ == spec_communication_choice_label(self),
    {
        match self {
            CommunicationChoice::NotChosen => "Choose communication request",
            CommunicationChoice::ReqRegistrationToChat => "Request registration to chat",
            CommunicationChoice::MessageSend => "Send message",
            CommunicationChoice::ReqClientsList => "Request clients list",
        }
    }
}

/// The state of one client's control form.
#[derive(Clone, Debug)]
pub struct ClientWindowState {
    pub message_choice: MessageChoice,
    pub content_choice: ContentChoice,
    pub communication_choice: CommunicationChoice,
    pub server_destination_id: Option<u8>,
    pub client_destination_id: Option<u8>,
    pub text_input: String,
}

/// Mathematical image of [`ClientWindowState`].
#[verifier::ext_equal]
pub struct ClientWindowStateView {
    pub message_choice: MessageChoice,
    pub content_choice: ContentChoice,
    pub communication_choice: CommunicationChoice,
    pub server_destination_id: Option<u8>,
    pub client_destination_id: Option<u8>,
    pub text_input: Seq<char>,
}

impl View for ClientWindowState {
    type V = ClientWindowStateView;

    open spec fn view(&self) -> ClientWindowStateView {
        ClientWindowStateView {
            message_choice: self.message_choice,
            content_choice: self.content_choice,
            communication_choice: self.communication_choice,
            server_destination_id: self.server_destination_id,
            client_destination_id: self.client_destination_id,
            text_input: self.text_input@,
        }
    }
}

impl ClientWindowStateView {
    /// The cleared form: nothing chosen, no destinations, empty text.
    pub open spec fn cleared() -> ClientWindowStateView {
        ClientWindowStateView {
            message_choice: MessageChoice::NotChosen,
            content_choice: ContentChoice::NotChosen,
            communication_choice: CommunicationChoice::NotChosen,
            server_destination_id: None,
            client_destination_id: None,
            text_input: Seq::empty(),
        }
    }
}

impl Default for ClientWindowState {
    /// The cleared form, as the form also returns to after a message
    /// was sent.
    fn default() -> (r: Self)
        ensures
            r@ == ClientWindowStateView::cleared(),
    {
        let r = ClientWindowState {
            message_choice: MessageChoice::NotChosen,
            content_choice: ContentChoice::NotChosen,
            communication_choice: CommunicationChoice::NotChosen,
            server_destination_id: None,
            client_destination_id: None,
            text_input: String::new(),
        };
        proof {
            assert(r@ =~= ClientWindowStateView::cleared());
        }
        r
    }
}

/// The command a filled form asks client `id` to send: the destination
/// server and the message body; none exactly when a needed choice or
/// destination is still missing.
pub open spec fn spec_compose_client_command(st: ClientWindowStateView, id: u8) -> Option<
    (u8, ClientBodyView),
> {
    match st.server_destination_id {
        None => None,
        Some(sid) => match st.message_choice {
            MessageChoice::NotChosen => None,
            MessageChoice::ReqServerType => Some((sid, ClientBodyView::ReqServerType)),
            MessageChoice::Content => match st.content_choice {
                ContentChoice::NotChosen => None,
                ContentChoice::ReqFilesList => Some(
                    (sid, ClientBodyView::ClientContent(ClientContentBodyView::ReqFilesList)),
                ),
                ContentChoice::ReqFile => Some(
                    (
                        sid,
                        ClientBodyView::ClientContent(
                            ClientContentBodyView::ReqFile(st.text_input),
                        ),
                    ),
                ),
            },
            MessageChoice::Communication => match st.communication_choice {
                CommunicationChoice::NotChosen => None,
                CommunicationChoice::ReqRegistrationToChat => Some(
                    (
                        sid,
                        ClientBodyView::ClientCommunication(
                            ClientCommunicationBodyView::ReqRegistrationToChat,
                        ),
                    ),
                ),
                CommunicationChoice::ReqClientsList => Some(
                    (
                        sid,
                        ClientBodyView::ClientCommunication(
                            ClientCommunicationBodyView::ReqClientList,
                        ),
                    ),
                ),
                CommunicationChoice::MessageSend => match st.client_destination_id {
                    None => None,
                    Some(cid) => Some(
                        (
                            sid,
                            ClientBodyView::ClientCommunication(
                                ClientCommunicationBodyView::MessageSend(
                                    CommunicationMessageView {
                                        from: id,
                                        to: cid,
                                        message: st.text_input,
                                    },
                                ),
                            ),
                        ),
                    ),
                },
            },
        },
    }
}

/// Composes the command the form asks client `id` to send. Returns the
/// destination server and the message body, or nothing exactly when a
/// needed choice or destination is still missing.
pub fn compose_client_command(state: &ClientWindowState, id: u8) -> (r: Option<(u8, ClientBody)>)
    ensures
        r is Some <==> spec_compose_client_command(state@, id) is Some,
        r is Some ==> r.unwrap().0 == spec_compose_client_command(state@, id).unwrap().0
            && r.unwrap().1@ == spec_compose_client_command(state@, id).unwrap().1,
{
    let sid = match state.server_destination_id {
        Some(sid) => sid,
        None => {
            return None;
        },
    };
    let body = match state.message_choice {
        MessageChoice::NotChosen => {
            return None;
        },
        MessageChoice::ReqServerType => ClientBody::ReqServerType,
        MessageChoice::Content => match state.content_choice {
            ContentChoice::NotChosen => {
                return None;
            },
            ContentChoice::ReqFilesList => ClientBody::ClientContent(
                ClientContentBody::ReqFilesList,
            ),
            ContentChoice::ReqFile => ClientBody::ClientContent(
                ClientContentBody::ReqFile(state.text_input.clone()),
            ),
        },
        MessageChoice::Communication => match state.communication_choice {
            CommunicationChoice::NotChosen => {
                return None;
            },
            CommunicationChoice::ReqRegistrationToChat => ClientBody::ClientCommunication(
                ClientCommunicationBody::ReqRegistrationToChat,
            ),
            CommunicationChoice::ReqClientsList => ClientBody::ClientCommunication(
                ClientCommunicationBody::ReqClientList,
            ),
            CommunicationChoice::MessageSend => {
                let cid = match state.client_destination_id {
                    Some(cid) => cid,
                    None => {
                        return None;
                    },
                };
                ClientBody::ClientCommunication(
                    ClientCommunicationBody::MessageSend(
                        CommunicationMessage {
                            from: id,
                            to: cid,
                            message: state.text_input.clone(),
                        },
                    ),
                )
            },
        },
    };
    Some((sid, body))
}

/// The log line both ends of a freshly added link get.
pub open spec fn spec_link_added_log(peer: u8) -> LogEntryView {
    LogEntryView {
        text: "Link added with node "@ + spec_decimal(peer as int),
        color: LogColor::Info,
    }
}

/// The log line a node gets when adding a link to `peer` failed.
pub open spec fn spec_link_failed_log(peer: u8) -> LogEntryView {
    LogEntryView {
        text: "Failed to add link with node "@ + spec_decimal(peer as int),
        color: LogColor::Info,
    }
}

/// Logs the outcome of the engine's add-edge command between `id` and
/// `other`: on success both ends learn of the new link, on failure only
/// the node whose window asked for it.
pub fn log_add_edge_outcome(data: &mut SimulationData, id: u8, other: u8, success: bool)
    requires
        old(data).wf(),
        old(data)@.logs.contains_key(id),
        old(data)@.logs.contains_key(other),
    ensures
        final(data).wf(),
        final(data)@ == if success {
            old(data)@.with_log(other, spec_link_added_log(id)).with_log(
                id,
                spec_link_added_log(other),
            )
        } else {
            old(data)@.with_log(id, spec_link_failed_log(other))
        },
{
    if success {
        let mut t = String::from_str("Link added with node ");
        let ds = u8_to_string(id);
        t.append(ds.as_str());
        proof {
            assert(t@ =~= spec_link_added_log(id).text);
        }
        data.add_log(other, t, LogColor::Info);
        let mut t = String::from_str("Link added with node ");
        let ds = u8_to_string(other);
        t.append(ds.as_str());
        proof {
            assert(t@ =~= spec_link_added_log(other).text);
        }
        data.add_log(id, t, LogColor::Info);
    } else {
        let mut t = String::from_str("Failed to add link with node ");
        let ds = u8_to_string(other);
        t.append(ds.as_str());
        proof {
            assert(t@ =~= spec_link_failed_log(other).text);
        }
        data.add_log(id, t, LogColor::Info);
    }
}

/// The log line a relay gets when its drop rate changed; the rendered
/// rate is supplied by the caller, who owns the slider's value.
pub open spec fn spec_pdr_changed_log(rate_text: Seq<char>) -> LogEntryView {
    LogEntryView { text: "Changed PDR to "@ + rate_text, color: LogColor::Info }
}

/// The log line a relay gets when changing its drop rate failed.
pub open spec fn spec_pdr_failed_log() -> LogEntryView {
    LogEntryView { text: "Failed to change PDR"@, color: LogColor::Info }
}

/// Logs the outcome of the engine's set-drop-rate command on relay
/// `id`; `rate_text` is the rendered rate the caller asked for.
pub fn log_set_pdr_outcome(data: &mut SimulationData, id: u8, success: bool, rate_text: &str)
    requires
        old(data).wf(),
        old(data)@.logs.contains_key(id),
    ensures
        final(data).wf(),
        final(data)@ == if success {
            old(data)@.with_log(id, spec_pdr_changed_log(rate_text@))
        } else {
            old(data)@.with_log(id, spec_pdr_failed_log())
        },
{
    if success {
        let mut t = String::from_str("Changed PDR to ");
        t.append(rate_text);
        proof {
            assert(t@ =~= spec_pdr_changed_log(rate_text@).text);
        }
        data.add_log(id, t, LogColor::Info);
    } else {
        data.add_log(id, String::from_str("Failed to change PDR"), LogColor::Info);
    }
}

/// The log line a relay gets when the engine refused to crash it.
pub open spec fn spec_crash_failed_log() -> LogEntryView {
    LogEntryView { text: "Cannot crash"@, color: LogColor::Negative }
}

/// Logs the outcome of the engine's crash command on relay `id`: a
/// successful crash leaves no line (the node is about to disappear), a
/// refused one gets a negative line.
pub fn log_crash_outcome(data: &mut SimulationData, id: u8, success: bool)
    requires
        old(data).wf(),
        old(data)@.logs.contains_key(id),
    ensures
        final(data).wf(),
        final(data)@ == if success {
            old(data)@
        } else {
            old(data)@.with_log(id, spec_crash_failed_log())
        },
{
    if !success {
        data.add_log(id, String::from_str("Cannot crash"), LogColor::Negative);
    }
}

/// The log line a client gets after its command was handed to the
/// engine.
pub open spec fn spec_command_sent_log() -> LogEntryView {
    LogEntryView { text: "ClientCommand sent correctly"@, color: LogColor::Neutral }
}

/// The log line a client gets when its command could not be sent.
pub open spec fn spec_command_failed_log() -> LogEntryView {
    LogEntryView { text: "Error in sending command"@, color: LogColor::Neutral }
}

/// Logs the outcome of handing a composed client command to the engine.
pub fn log_send_command_outcome(data: &mut SimulationData, id: u8, success: bool)
    requires
        old(data).wf(),
        old(data)@.logs.contains_key(id),
    ensures
        final(data).wf(),
        final(data)@ == if success {
            old(data)@.with_log(id, spec_command_sent_log())
        } else {
            old(data)@.with_log(id, spec_command_failed_log())
        },
{
    if success {
        data.add_log(id, String::from_str("ClientCommand sent correctly"), LogColor::Neutral);
    } else {
        data.add_log(id, String::from_str("Error in sending command"), LogColor::Neutral);
    }
}

} // verus!
