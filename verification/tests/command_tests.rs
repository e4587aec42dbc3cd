use controller_core::commands::{
    compose_client_command, log_add_edge_outcome, log_crash_outcome, log_send_command_outcome,
    log_set_pdr_outcome, ClientWindowState, CommunicationChoice, ContentChoice, MessageChoice,
};
use controller_core::hub::SimulationData;
use controller_core::types::{
    ClientBody, ClientCommunicationBody, ClientContentBody, LogColor,
};

fn hub() -> SimulationData {
    SimulationData::new(vec![5, 6], vec![1], vec![9])
}

#[test]
fn choice_labels() {
    assert_eq!(MessageChoice::NotChosen.label(), "Choose request type");
    assert_eq!(MessageChoice::ReqServerType.label(), "Request server type");
    assert_eq!(MessageChoice::Content.label(), "Content request");
    assert_eq!(MessageChoice::Communication.label(), "Communication request");
    assert_eq!(ContentChoice::NotChosen.label(), "Choose content request");
    assert_eq!(ContentChoice::ReqFilesList.label(), "Request files list");
    assert_eq!(ContentChoice::ReqFile.label(), "Request file");
    assert_eq!(CommunicationChoice::NotChosen.label(), "Choose communication request");
    assert_eq!(
        CommunicationChoice::ReqRegistrationToChat.label(),
        "Request registration to chat"
    );
    assert_eq!(CommunicationChoice::MessageSend.label(), "Send message");
    assert_eq!(CommunicationChoice::ReqClientsList.label(), "Request clients list");
}

#[test]
fn default_form_is_cleared() {
    let st = ClientWindowState::default();
    assert_eq!(st.message_choice, MessageChoice::NotChosen);
    assert_eq!(st.content_choice, ContentChoice::NotChosen);
    assert_eq!(st.communication_choice, CommunicationChoice::NotChosen);
    assert_eq!(st.server_destination_id, None);
    assert_eq!(st.client_destination_id, None);
    assert_eq!(st.text_input, "");
}

#[test]
fn compose_refuses_incomplete_forms() {
    let mut st = ClientWindowState::default();
    // nothing chosen at all
    assert!(compose_client_command(&st, 1).is_none());
    // a request type but no server destination
    st.message_choice = MessageChoice::ReqServerType;
    assert!(compose_client_command(&st, 1).is_none());
    // content chosen but which content request is still open
    st.message_choice = MessageChoice::Content;
    st.server_destination_id = Some(9);
    assert!(compose_client_command(&st, 1).is_none());
    // a chat message without a destination client
    st.message_choice = MessageChoice::Communication;
    st.communication_choice = CommunicationChoice::MessageSend;
    assert!(compose_client_command(&st, 1).is_none());
}

#[test]
fn compose_builds_the_chosen_request() {
    let mut st = ClientWindowState::default();
    st.message_choice = MessageChoice::ReqServerType;
    st.server_destination_id = Some(9);
    let (sid, body) = compose_client_command(&st, 1).unwrap();
    assert_eq!(sid, 9);
    assert!(matches!(body, ClientBody::ReqServerType));

    st.message_choice = MessageChoice::Content;
    st.content_choice = ContentChoice::ReqFile;
    st.text_input = "story.txt".to_string();
    let (_, body) = compose_client_command(&st, 1).unwrap();
    match body {
        ClientBody::ClientContent(ClientContentBody::ReqFile(name)) => {
            assert_eq!(name, "story.txt");
        }
        other => panic!("unexpected body: {other:?}"),
    }

    st.message_choice = MessageChoice::Communication;
    st.communication_choice = CommunicationChoice::MessageSend;
    st.client_destination_id = Some(2);
    st.text_input = "hello".to_string();
    let (sid, body) = compose_client_command(&st, 1).unwrap();
    assert_eq!(sid, 9);
    match body {
        ClientBody::ClientCommunication(ClientCommunicationBody::MessageSend(cm)) => {
            assert_eq!(cm.from, 1);
            assert_eq!(cm.to, 2);
            assert_eq!(cm.message, "hello");
        }
        other => panic!("unexpected body: {other:?}"),
    }
}

#[test]
fn add_edge_outcome_logs_both_ends_on_success() {
    let mut data = hub();
    log_add_edge_outcome(&mut data, 5, 6, true);
    assert_eq!(data.get_logs(5)[0].text, "Link added with node 6");
    assert_eq!(data.get_logs(6)[0].text, "Link added with node 5");
}

#[test]
fn add_edge_outcome_logs_failure_on_one_end() {
    let mut data = hub();
    log_add_edge_outcome(&mut data, 5, 6, false);
    assert_eq!(data.get_logs(5)[0].text, "Failed to add link with node 6");
    assert_eq!(data.get_logs(6).len(), 0);
}

#[test]
fn pdr_outcome_cites_the_rendered_rate() {
    let mut data = hub();
    log_set_pdr_outcome(&mut data, 5, true, "0.35");
    assert_eq!(data.get_logs(5)[0].text, "Changed PDR to 0.35");
    log_set_pdr_outcome(&mut data, 5, false, "0.35");
    assert_eq!(data.get_logs(5)[1].text, "Failed to change PDR");
}

#[test]
fn crash_outcome_logs_only_refusals() {
    let mut data = hub();
    log_crash_outcome(&mut data, 5, true);
    assert_eq!(data.get_logs(5).len(), 0);
    log_crash_outcome(&mut data, 5, false);
    assert_eq!(data.get_logs(5)[0].text, "Cannot crash");
    assert_eq!(data.get_logs(5)[0].color, LogColor::Negative);
}

#[test]
fn send_outcome_lines() {
    let mut data = hub();
    log_send_command_outcome(&mut data, 1, true);
    log_send_command_outcome(&mut data, 1, false);
    let logs = data.get_logs(1);
    assert_eq!(logs[0].text, "ClientCommand sent correctly");
    assert_eq!(logs[0].color, LogColor::Neutral);
    assert_eq!(logs[1].text, "Error in sending command");
}
