//! Holding a request to what its model takes.

use vstd::prelude::*;
use vstd::string::*;

use crate::error::Error;
use crate::models_dev::ModelsDevEntry;
use crate::text;
use crate::text_laws;
use crate::wire::{Attachment, Request};

verus! {

/// What a model takes.
#[derive(Debug, Clone, PartialEq, Eq)]
pub struct ModalityGate {
    pub attachment: bool,
    pub tool_call: bool,
    pub modalities_in: Vec<String>,
    pub modalities_out: Vec<String>,
}

/// A list of strings in the debug form of `Vec<String>`.
pub uninterp spec fn debug_list(list: Seq<Seq<char>>) -> Seq<char>;

/// Renders a list of strings with `format!("{:?}")`. The form, with its quotes
/// and escapes, is a function of the strings, named [`debug_list`].
#[verifier::external_body]
fn render_list(list: &Vec<String>) -> (r: String)
    ensures
        r@ == debug_list(text::views(list@)),
{
    format!("{:?}", list)
}

/// The message for attachments to a model that takes none.
pub open spec fn no_attachments_text(model: Seq<char>, count: nat) -> Seq<char> {
    "model "@ + model + " does not accept attachments ("@ + text::decimal(count) + " attached)"@
}

/// The message for an attachment of a modality that the model does not take,
/// where `accepted` lists those that it does.
pub open spec fn refused_text(
    modality: Seq<char>,
    model: Seq<char>,
    accepted: Seq<char>,
) -> Seq<char> {
    modality + " attachment refused: model "@ + model + " accepts "@ + accepted + " only"@
}

/// The error for an attachment of a modality that the model does not take,
/// where `accepted` lists those that it does.
pub fn refusal(modality: &str, model: &str, accepted: &str) -> (e: Error)
    ensures
        e matches Error::ModalityUnsupported(message) && message@ == refused_text(
            modality@,
            model@,
            accepted@,
        ),
{
    let message = modality.to_owned().concat(" attachment refused: model ").concat(model).concat(
        " accepts ",
    ).concat(accepted).concat(" only");
    Error::ModalityUnsupported(message)
}

/// The index of the first attachment whose modality is not in `accepted`, or
/// the number of attachments.
pub open spec fn first_refused(attachments: Seq<Attachment>, accepted: Seq<Seq<char>>) -> int
    decreases attachments.len(),
{
    if attachments.len() == 0 || !accepted.contains(attachments[0].modality@) {
        0
    } else {
        1 + first_refused(attachments.skip(1), accepted)
    }
}

impl ModalityGate {
    /// A request with these attachments is let pass.
    pub open spec fn admits(&self, attachments: Seq<Attachment>) -> bool {
        &&& self.attachment || attachments.len() == 0
        &&& forall|i: int|
            0 <= i < attachments.len() ==> text::views(self.modalities_in@).contains(
                (#[trigger] attachments[i]).modality@,
            )
    }

    /// The request that goes on where `req` is let pass: without a choice of
    /// tools where the model takes none.
    pub open spec fn passed(&self, req: Request) -> Request {
        Request {
            tool_choice: if self.tool_call {
                req.tool_choice
            } else {
                None
            },
            ..req
        }
    }

    /// Text in, text out, no attachments and no tools.
    pub open spec fn is_conservative(&self) -> bool {
        &&& !self.attachment
        &&& !self.tool_call
        &&& text::views(self.modalities_in@) == seq!["text"@]
        &&& text::views(self.modalities_out@) == seq!["text"@]
    }

    /// What a model of the catalog takes.
    pub fn from_entry(entry: &ModelsDevEntry) -> (r: Self)
        ensures
            r.attachment == entry.attachment,
            r.tool_call == entry.tool_call,
            r.modalities_in@ == entry.modalities.input@,
            r.modalities_out@ == entry.modalities.output@,
    {
        ModalityGate {
            attachment: entry.attachment,
            tool_call: entry.tool_call,
            modalities_in: clone_list(&entry.modalities.input),
            modalities_out: clone_list(&entry.modalities.output),
        }
    }

    /// What a model of which nothing is known takes: text in, text out, no
    /// attachments and no tools.
    pub fn from_conservative_default() -> (r: Self)
        ensures
            r.is_conservative(),
    {
        let mut input: Vec<String> = Vec::new();
        input.push("text".to_owned());
        let mut output: Vec<String> = Vec::new();
        output.push("text".to_owned());
        assert(text::views(input@) =~= seq!["text"@]);
        assert(text::views(output@) =~= seq!["text"@]);
        ModalityGate {
            attachment: false,
            tool_call: false,
            modalities_in: input,
            modalities_out: output,
        }
    }

    /// Holds `req` to what the model takes. A request with attachments that the model
    /// does not take is refused; a choice of tools that it does not take is
    /// dropped without a word.
    pub fn apply(&self, req: &mut Request) -> (r: Result<(), Error>)
        ensures
            r is Ok <==> self.admits(old(req).attachments@),
            match r {
                Ok(_) => *final(req) == self.passed(*old(req)),
                Err(e) => {
                    &&& *final(req) == *old(req)
                    &&& e matches Error::ModalityUnsupported(message)
                    &&& message@ == (if !self.attachment {
                        no_attachments_text(old(req).model@, old(req).attachments@.len())
                    } else {
                        refused_text(
                            old(req).attachments@[first_refused(
                                old(req).attachments@,
                                text::views(self.modalities_in@),
                            )].modality@,
                            old(req).model@,
                            debug_list(text::views(self.modalities_in@)),
                        )
                    })
                },
            },
    {
        if !self.attachment && req.attachments.len() > 0 {
            let count = text::decimal_of(req.attachments.len() as u64);
            let message = "model ".to_owned().concat(req.model.as_str()).concat(
                " does not accept attachments (",
            ).concat(count.as_str()).concat(" attached)");
            return Err(Error::ModalityUnsupported(message));
        }
        let ghost all = req.attachments@;
        let ghost accepted = text::views(self.modalities_in@);
        let mut i: usize = 0;
        assert(all.skip(0) =~= all);
        while i < req.attachments.len()
            invariant
                *req == *old(req),
                all == req.attachments@,
                accepted == text::views(self.modalities_in@),
                self.attachment || all.len() == 0,
                i <= all.len(),
                first_refused(all, accepted) == i + first_refused(all.skip(i as int), accepted),
                forall|j: int| 0 <= j < i ==> accepted.contains((#[trigger] all[j]).modality@),
            decreases all.len() - i,
        {
            if !text::listed(&self.modalities_in, req.attachments[i].modality.as_str()) {
                assert(!accepted.contains(all[i as int].modality@));
                assert(first_refused(all.skip(i as int), accepted) == 0);
                let names = render_list(&self.modalities_in);
                return Err(
                    refusal(
                        req.attachments[i].modality.as_str(),
                        req.model.as_str(),
                        names.as_str(),
                    ),
                );
            }
            assert(all.skip(i as int).skip(1) =~= all.skip(i + 1));
            i = i + 1;
        }
        if !self.tool_call && req.tool_choice.is_some() {
            req.tool_choice = None;
        }
        Ok(())
    }
}

/// A copy of a list of strings.
pub fn clone_list(list: &Vec<String>) -> (r: Vec<String>)
    ensures
        r@ == list@,
{
    let mut r: Vec<String> = Vec::new();
    let mut i: usize = 0;
    while i < list.len()
        invariant
            i <= list@.len(),
            r@ =~= list@.take(i as int),
        decreases list@.len() - i,
    {
        r.push(list[i].clone());
        i = i + 1;
    }
    r
}

/// A request that was let pass is let pass again, unchanged.
pub proof fn law_gate_is_idempotent(gate: ModalityGate, req: Request)
    requires
        gate.admits(req.attachments@),
    ensures
        gate.admits(gate.passed(req).attachments@),
        gate.passed(gate.passed(req)) == gate.passed(req),
{
}

/// A request without attachments is let pass in any case.
pub proof fn law_no_attachments_always_pass(gate: ModalityGate)
    ensures
        gate.admits(Seq::empty()),
{
}

/// What is let pass where nothing is known of the model is let pass by what is
/// known of any model, with no fewer tools.
pub proof fn law_default_widens_nothing(default: ModalityGate, gate: ModalityGate, req: Request)
    requires
        default.is_conservative(),
        default.admits(req.attachments@),
    ensures
        gate.admits(req.attachments@),
        default.passed(req).tool_choice is None,
{
}

/// Attachments are judged one by one: a request is let pass where each of its
/// attachments would be, and one attachment is where the model takes
/// attachments and its modality.
pub proof fn law_attachments_are_judged_one_by_one(
    gate: ModalityGate,
    a: Seq<Attachment>,
    x: Attachment,
    b: Seq<Attachment>,
)
    ensures
        gate.admits(a + b) <==> gate.admits(a) && gate.admits(b),
        gate.admits(seq![x]) <==> gate.attachment && exists|i: int|
            0 <= i < gate.modalities_in@.len() && (#[trigger] gate.modalities_in@[i])@ == x.modality@,
{
    let accepted = text::views(gate.modalities_in@);
    assert(forall|i: int| 0 <= i < a.len() ==> (a + b)[i] == a[i]);
    assert(forall|i: int| 0 <= i < b.len() ==> (a + b)[a.len() + i] == b[i]);
    if gate.admits(a + b) {
        assert forall|i: int| 0 <= i < b.len() implies accepted.contains(
            (#[trigger] b[i]).modality@,
        ) by {
            assert((a + b)[a.len() + i] == b[i]);
        }
        assert forall|i: int| 0 <= i < a.len() implies accepted.contains(
            (#[trigger] a[i]).modality@,
        ) by {
            assert((a + b)[i] == a[i]);
        }
    }
    assert(seq![x][0] == x);
    if accepted.contains(x.modality@) {
        let i = choose|i: int| 0 <= i < accepted.len() && accepted[i] == x.modality@;
        assert(gate.modalities_in@[i]@ == x.modality@);
    }
    if exists|i: int|
        0 <= i < gate.modalities_in@.len() && (#[trigger] gate.modalities_in@[i])@ == x.modality@ {
        let i = choose|i: int|
            0 <= i < gate.modalities_in@.len() && (#[trigger] gate.modalities_in@[i])@ == x.modality@;
        assert(accepted[i] == x.modality@);
    }
}

/// The attachment that a refusal speaks of is the first that is not taken.
pub proof fn law_first_refusal(a: Seq<Attachment>, x: Attachment, b: Seq<Attachment>, accepted: Seq<Seq<char>>)
    requires
        forall|i: int| 0 <= i < a.len() ==> accepted.contains((#[trigger] a[i]).modality@),
        !accepted.contains(x.modality@),
    ensures
        first_refused(a.push(x) + b, accepted) == a.len(),
    decreases a.len(),
{
    let all = a.push(x) + b;
    if a.len() == 0 {
        assert(all[0] == x);
    } else {
        assert(all[0] == a[0]);
        assert(accepted.contains(a[0].modality@));
        assert(all.skip(1) =~= a.skip(1).push(x) + b);
        assert forall|i: int| 0 <= i < a.skip(1).len() implies accepted.contains(
            (#[trigger] a.skip(1)[i]).modality@,
        ) by {
            assert(a[i + 1] == a.skip(1)[i]);
        }
        law_first_refusal(a.skip(1), x, b, accepted);
    }
}

/// Of a request that is let pass only the choice of tools can change: it is
/// dropped where the model takes no tools, and kept where it does.
pub proof fn law_gate_keeps_the_rest(gate: ModalityGate, req: Request)
    ensures
        gate.passed(req) == (Request { tool_choice: gate.passed(req).tool_choice, ..req }),
        gate.tool_call ==> gate.passed(req) == req,
        !gate.tool_call ==> gate.passed(req).tool_choice is None,
{
}

/// The messages of a refusal name the model; one tells how many attachments
/// there are, the other of which modality the refused one is and what is taken
/// instead.
pub proof fn law_refusal_messages(
    model: Seq<char>,
    count: nat,
    modality: Seq<char>,
    accepted: Seq<char>,
)
    ensures
        text::occurs(no_attachments_text(model, count), model),
        text::occurs(no_attachments_text(model, count), text::decimal(count)),
        text::has_prefix(refused_text(modality, model, accepted), modality),
        text::occurs(refused_text(modality, model, accepted), model),
        text::occurs(refused_text(modality, model, accepted), accepted),
{
    let a = "model "@;
    let b = " does not accept attachments ("@;
    let n = text::decimal(count);
    let c = " attached)"@;
    let one = no_attachments_text(model, count);
    text_laws::law_occurs(one, model);
    text_laws::law_occurs(one, n);
    assert(one =~= a + model + (b + n + c));
    assert(one =~= (a + model + b) + n + c);
    let d = " attachment refused: model "@;
    let e = " accepts "@;
    let f = " only"@;
    let two = refused_text(modality, model, accepted);
    text_laws::law_prefix_and_suffix(modality, d + model + e + accepted + f);
    assert(two =~= modality + (d + model + e + accepted + f));
    text_laws::law_occurs(two, model);
    assert(two =~= (modality + d) + model + (e + accepted + f));
    text_laws::law_occurs(two, accepted);
    assert(two =~= (modality + d + model + e) + accepted + f);
}

/// A model of which nothing is known takes text and no attachment at all.
pub proof fn law_nothing_known(gate: ModalityGate, attachments: Seq<Attachment>)
    requires
        gate.is_conservative(),
    ensures
        gate.admits(attachments) <==> attachments.len() == 0,
        gate.modalities_in@.len() == 1 && gate.modalities_in@[0]@ == "text"@,
        gate.modalities_out@.len() == 1 && gate.modalities_out@[0]@ == "text"@,
        !gate.tool_call,
{
    let a = text::views(gate.modalities_in@);
    let b = text::views(gate.modalities_out@);
    assert(a.len() == 1 && a[0] == "text"@);
    assert(b.len() == 1 && b[0] == "text"@);
}

} // verus!
