use moagan::error::Error;
use moagan::modal_gate::{refusal, ModalityGate};
use moagan::models_dev::{Cost, Limits, Modalities, ModelsDevEntry};
use moagan::role::Role;
use moagan::wire::{Attachment, Request, ToolChoice};

fn entry(attachment: bool, tool_call: bool, modalities: (&[&str], &[&str])) -> ModelsDevEntry {
    ModelsDevEntry {
        id: "test-model".to_string(),
        name: "test-model".to_string(),
        family: Some("test".to_string()),
        attachment,
        reasoning: false,
        reasoning_options: vec![],
        tool_call,
        temperature: true,
        interleaved: None,
        modalities: Modalities {
            input: modalities.0.iter().map(|s| s.to_string()).collect(),
            output: modalities.1.iter().map(|s| s.to_string()).collect(),
        },
        limit: Limits {
            context: 8192,
            output: 2048,
        },
        cost: Cost::default(),
        open_weights: false,
        release_date: None,
        last_updated: None,
    }
}

fn request() -> Request {
    Request {
        role: Role::Sketch,
        model: "test-model".to_string(),
        system: String::new(),
        user: String::new(),
        max_tokens: Some(1024),
        temperature: None,
        top_p: None,
        response_schema: None,
        stream: false,
        extra_messages: vec![],
        attachments: vec![],
        tool_choice: None,
    }
}

#[test]
fn attachment_false_blocks_any_attachment() {
    let gate = ModalityGate::from_entry(&entry(false, true, (&["text"], &["text"])));
    let mut req = request();
    req.attachments.push(Attachment {
        mime: "image/png".to_string(),
        modality: "image".to_string(),
        data: vec![0x89, 0x50, 0x4e, 0x47],
    });
    let err = gate.apply(&mut req).unwrap_err();
    match err {
        Error::ModalityUnsupported(msg) => {
            assert!(
                msg.contains("test-model"),
                "error must name the model: {msg}"
            );
            assert!(
                msg.contains("does not accept attachments"),
                "error must explain the refusal: {msg}"
            );
        }
        other => panic!("expected ModalityUnsupported, got {other:?}"),
    }
}

#[test]
fn attachment_true_allows_attachment() {
    let gate = ModalityGate::from_entry(&entry(true, true, (&["text", "image"], &["text"])));
    let mut req = request();
    req.attachments.push(Attachment {
        mime: "image/png".to_string(),
        modality: "image".to_string(),
        data: vec![0x89, 0x50, 0x4e, 0x47],
    });
    gate.apply(&mut req)
        .expect("attachment-true gate must accept image");
}

#[test]
fn tool_call_false_drops_tool_choice() {
    let gate = ModalityGate::from_entry(&entry(true, false, (&["text"], &["text"])));
    let mut req = request();
    req.tool_choice = Some(ToolChoice::Auto);
    gate.apply(&mut req)
        .expect("tool_call-false gate must not error");
    assert!(
        req.tool_choice.is_none(),
        "tool_choice must be dropped to None when tool_call=false"
    );
}

#[test]
fn tool_call_true_keeps_tool_choice() {
    let gate = ModalityGate::from_entry(&entry(true, true, (&["text"], &["text"])));
    let mut req = request();
    req.tool_choice = Some(ToolChoice::Required);
    gate.apply(&mut req)
        .expect("tool_call-true gate must not error");
    assert_eq!(
        req.tool_choice,
        Some(ToolChoice::Required),
        "tool_choice must survive a tool_call-true gate"
    );
}

#[test]
fn modality_image_to_text_only_returns_error() {
    let gate = ModalityGate::from_entry(&entry(true, true, (&["text"], &["text"])));
    let mut req = request();
    req.attachments.push(Attachment {
        mime: "image/png".to_string(),
        modality: "image".to_string(),
        data: vec![0x89, 0x50, 0x4e, 0x47],
    });
    let err = gate.apply(&mut req).unwrap_err();
    match err {
        Error::ModalityUnsupported(msg) => {
            assert!(
                msg.contains("image"),
                "error must name the offending modality: {msg}"
            );
            assert!(
                msg.contains("text"),
                "error must list the accepted modalities: {msg}"
            );
        }
        other => panic!("expected ModalityUnsupported, got {other:?}"),
    }
}

#[test]
fn modality_text_to_text_only_succeeds() {
    let gate = ModalityGate::from_entry(&entry(false, true, (&["text"], &["text"])));
    let mut req = request();
    gate.apply(&mut req).expect("text-only request must pass");
}

#[test]
fn conservative_default_rejects_image_and_tool_choice() {
    let gate = ModalityGate::from_conservative_default();
    let mut req = request();
    req.attachments.push(Attachment {
        mime: "image/png".to_string(),
        modality: "image".to_string(),
        data: vec![0x00],
    });
    req.tool_choice = Some(ToolChoice::Auto);
    let err = gate
        .apply(&mut req)
        .expect_err("conservative default must refuse an image");
    match err {
        Error::ModalityUnsupported(_) => {}
        other => panic!("expected ModalityUnsupported, got {other:?}"),
    }
}

#[test]
fn empty_attachments_always_passes() {
    let gate = ModalityGate::from_entry(&entry(false, true, (&["text"], &["text"])));
    let mut req = request();
    gate.apply(&mut req).expect("no attachments, no refusal");
}

#[test]
fn conservative_default_allows_text_request() {
    let gate = ModalityGate::from_conservative_default();
    let mut req = request();
    gate.apply(&mut req)
        .expect("text-only request must pass conservative default");
}

#[test]
fn from_entry_copies_capability_fields() {
    let entry = entry(false, false, (&["text"], &["text"]));
    let gate = ModalityGate::from_entry(&entry);
    assert!(!gate.attachment);
    assert!(!gate.tool_call);
    assert_eq!(gate.modalities_in, vec!["text".to_string()]);
    assert_eq!(gate.modalities_out, vec!["text".to_string()]);
}

#[test]
fn refusals_tell_what_is_wrong() {
    let png = || Attachment {
        mime: "image/png".to_string(),
        modality: "image".to_string(),
        data: vec![0x00],
    };
    let mut req = request();
    req.attachments.push(png());
    req.attachments.push(png());
    let none = ModalityGate::from_conservative_default();
    assert_eq!(
        none.apply(&mut req),
        Err(Error::ModalityUnsupported(
            "model test-model does not accept attachments (2 attached)".to_string()
        ))
    );
    let text_and_pdf = ModalityGate::from_entry(&entry(true, true, (&["text", "pdf"], &["text"])));
    assert_eq!(
        text_and_pdf.apply(&mut req),
        Err(Error::ModalityUnsupported(
            "image attachment refused: model test-model accepts [\"text\", \"pdf\"] only"
                .to_string()
        ))
    );
    assert_eq!(req.attachments.len(), 2);
    assert_eq!(
        refusal("a", "b", "c"),
        Error::ModalityUnsupported("a attachment refused: model b accepts c only".to_string())
    );
}

#[test]
fn passing_twice_changes_nothing_more() {
    let taker = ModalityGate::from_entry(&entry(true, false, (&["text", "image"], &["text"])));
    let mut req = request();
    req.tool_choice = Some(ToolChoice::Required);
    taker.apply(&mut req).unwrap();
    let once = req.clone();
    taker.apply(&mut req).unwrap();
    assert_eq!(req, once);
    assert_eq!(req.tool_choice, None);
}

#[test]
fn the_default_widens_nothing() {
    let default = ModalityGate::from_conservative_default();
    let narrow = ModalityGate::from_entry(&entry(false, false, (&[], &[])));
    let mut req = request();
    req.tool_choice = Some(ToolChoice::Auto);
    assert!(default.apply(&mut req).is_ok());
    assert_eq!(req.tool_choice, None);
    assert!(narrow.apply(&mut req).is_ok());
}
