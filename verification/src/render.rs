//! Message rendering: a template, a derived identity and a recipient
//! record yield one or two concrete messages.
//!
//! Subject and body undergo literal substitution of the six placeholder
//! tokens `{username}`, `{fullname}`, `{password}`, `{var1}`, `{var2}`,
//! `{var3}`, in that fixed order, every occurrence replaced. The
//! fan-out policy then emits one message with a visible CC, or — when
//! the password is to be hidden from a non-empty CC — a primary message
//! and a CC copy whose body carries `[hidden]` in place of the
//! password.

use vstd::prelude::*;

use crate::AppError;
use crate::identity::{spec_derive, Identity, IdentityModel};
use crate::text::{
    chars_of, contains_seq, lemma_replace_absent, replace_seq, replace_sub, string_of,
};

verus! {

/// A message template: the CC line and the subject and body texts with
/// their placeholders.
pub struct MessageTemplate {
    pub cc: String,
    pub subject: String,
    pub body: String,
}

/// One row of the recipient list: the address, the credential to hand
/// out, and up to three optional free variables.
pub struct RecipientRecord {
    pub email: String,
    pub password: String,
    pub var1: Option<String>,
    pub var2: Option<String>,
    pub var3: Option<String>,
}

/// One concrete outbound message.
#[derive(Clone, Debug)]
pub struct RenderedMessage {
    pub to: String,
    pub cc: String,
    pub subject: String,
    pub body: String,
}

/// The mathematical content of a `RenderedMessage`.
pub struct MessageModel {
    pub to: Seq<char>,
    pub cc: Seq<char>,
    pub subject: Seq<char>,
    pub body: Seq<char>,
}

impl View for RenderedMessage {
    type V = MessageModel;

    open spec fn view(&self) -> MessageModel {
        MessageModel { to: self.to@, cc: self.cc@, subject: self.subject@, body: self.body@ }
    }
}

/// The text an optional variable substitutes: empty when absent.
pub open spec fn opt_text(o: Option<String>) -> Seq<char> {
    match o {
        Some(s) => s@,
        None => Seq::empty(),
    }
}

/// A text with all six placeholder tokens substituted, in the fixed
/// order, every occurrence replaced.
pub open spec fn subst(
    text: Seq<char>,
    un: Seq<char>,
    fname: Seq<char>,
    pw: Seq<char>,
    v1: Seq<char>,
    v2: Seq<char>,
    v3: Seq<char>,
) -> Seq<char> {
    replace_seq(
        replace_seq(
            replace_seq(
                replace_seq(
                    replace_seq(replace_seq(text, "{username}"@, un), "{fullname}"@, fname),
                    "{password}"@,
                    pw,
                ),
                "{var1}"@,
                v1,
            ),
            "{var2}"@,
            v2,
        ),
        "{var3}"@,
        v3,
    )
}

/// Substitution for one recipient, with the given password text.
pub open spec fn subst_for(
    text: Seq<char>,
    id: IdentityModel,
    rec: RecipientRecord,
    pw: Seq<char>,
) -> Seq<char> {
    subst(
        text,
        id.username,
        id.full_name,
        pw,
        opt_text(rec.var1),
        opt_text(rec.var2),
        opt_text(rec.var3),
    )
}

/// The messages one recipient yields. With the password visible to the
/// CC — or with no CC to hide it from — a single message to the
/// recipient with the template's CC. With a password to hide from a
/// non-empty CC, the primary message first, then the CC copy, whose
/// body substitutes `[hidden]` for the password; both subjects carry
/// the real password.
pub open spec fn render_model(
    t: MessageTemplate,
    id: IdentityModel,
    rec: RecipientRecord,
    hide_password_from_cc: bool,
) -> Seq<MessageModel> {
    let subject = subst_for(t.subject@, id, rec, rec.password@);
    let body = subst_for(t.body@, id, rec, rec.password@);
    if hide_password_from_cc && t.cc@.len() > 0 {
        seq![
            MessageModel { to: rec.email@, cc: Seq::empty(), subject: subject, body: body },
            MessageModel {
                to: t.cc@,
                cc: Seq::empty(),
                subject: subject,
                body: subst_for(t.body@, id, rec, "[hidden]"@),
            },
        ]
    } else {
        seq![MessageModel { to: rec.email@, cc: t.cc@, subject: subject, body: body }]
    }
}

/// The characters of an optional variable, empty when absent.
fn opt_chars(o: &Option<String>) -> (v: Vec<char>)
    ensures
        v@ == opt_text(*o),
{
    match o {
        Some(s) => chars_of(s.as_str()),
        None => Vec::new(),
    }
}

/// One text with the six placeholders substituted for this recipient,
/// with the given password text.
fn subst_exec(text: &str, identity: &Identity, recipient: &RecipientRecord, pw: &str) -> (r:
    String)
    ensures
        r@ == subst_for(text@, identity@, *recipient, pw@),
{
    proof {
        reveal_strlit("{username}");
        reveal_strlit("{fullname}");
        reveal_strlit("{password}");
        reveal_strlit("{var1}");
        reveal_strlit("{var2}");
        reveal_strlit("{var3}");
    }
    let tv = chars_of(text);
    let un = chars_of(identity.username.as_str());
    let fname = chars_of(identity.full_name.as_str());
    let pwv = chars_of(pw);
    let v1 = opt_chars(&recipient.var1);
    let v2 = opt_chars(&recipient.var2);
    let v3 = opt_chars(&recipient.var3);
    let r1 = replace_sub(&tv, &chars_of("{username}"), &un);
    let r2 = replace_sub(&r1, &chars_of("{fullname}"), &fname);
    let r3 = replace_sub(&r2, &chars_of("{password}"), &pwv);
    let r4 = replace_sub(&r3, &chars_of("{var1}"), &v1);
    let r5 = replace_sub(&r4, &chars_of("{var2}"), &v2);
    let r6 = replace_sub(&r5, &chars_of("{var3}"), &v3);
    string_of(&r6)
}

/// Renders one recipient: exactly one message with a visible CC under
/// the plain policy, exactly two — primary, then CC copy with the
/// password hidden in the body — when the password is hidden from a
/// non-empty CC.
pub fn render(
    template: &MessageTemplate,
    identity: &Identity,
    recipient: &RecipientRecord,
    hide_password_from_cc: bool,
) -> (msgs: Vec<RenderedMessage>)
    ensures
        msgs@.map_values(|m: RenderedMessage| m@) == render_model(
            *template,
            identity@,
            *recipient,
            hide_password_from_cc,
        ),
{
    let subject = subst_exec(
        template.subject.as_str(),
        identity,
        recipient,
        recipient.password.as_str(),
    );
    let body = subst_exec(template.body.as_str(), identity, recipient, recipient.password.as_str());
    let mut msgs: Vec<RenderedMessage> = Vec::new();
    if hide_password_from_cc && !template.cc.as_str().is_empty() {
        let cc_body = subst_exec(template.body.as_str(), identity, recipient, "[hidden]");
        msgs.push(
            RenderedMessage {
                to: recipient.email.clone(),
                cc: String::new(),
                subject: subject.clone(),
                body,
            },
        );
        msgs.push(
            RenderedMessage { to: template.cc.clone(), cc: String::new(), subject, body: cc_body },
        );
    } else {
        msgs.push(
            RenderedMessage {
                to: recipient.email.clone(),
                cc: template.cc.clone(),
                subject,
                body,
            },
        );
    }
    proof {
        assert(msgs@.map_values(|m: RenderedMessage| m@) =~= render_model(
            *template,
            identity@,
            *recipient,
            hide_password_from_cc,
        ));
    }
    msgs
}

/// The messages a whole batch yields, recipients in order: each
/// derivable recipient contributes its rendered messages, each failing
/// one contributes nothing.
pub open spec fn batch_msgs(
    t: MessageTemplate,
    recs: Seq<RecipientRecord>,
    hide_password_from_cc: bool,
) -> Seq<MessageModel>
    decreases recs.len(),
{
    if recs.len() == 0 {
        Seq::empty()
    } else {
        (match spec_derive(recs[0].email@) {
            Ok(id) => render_model(t, id, recs[0], hide_password_from_cc),
            Err(_) => Seq::empty(),
        }) + batch_msgs(t, recs.skip(1), hide_password_from_cc)
    }
}

/// The failures a whole batch yields, recipients in order: each failing
/// recipient contributes its address and the error it was classified
/// with.
pub open spec fn batch_failures(recs: Seq<RecipientRecord>) -> Seq<(Seq<char>, AppError)>
    decreases recs.len(),
{
    if recs.len() == 0 {
        Seq::empty()
    } else {
        (match spec_derive(recs[0].email@) {
            Ok(_) => Seq::empty(),
            Err(e) => seq![(recs[0].email@, e)],
        }) + batch_failures(recs.skip(1))
    }
}

proof fn lemma_batch_push(
    t: MessageTemplate,
    recs: Seq<RecipientRecord>,
    rec: RecipientRecord,
    hide_password_from_cc: bool,
)
    ensures
        batch_msgs(t, recs.push(rec), hide_password_from_cc) == batch_msgs(
            t,
            recs,
            hide_password_from_cc,
        ) + (match spec_derive(rec.email@) {
            Ok(id) => render_model(t, id, rec, hide_password_from_cc),
            Err(_) => Seq::empty(),
        }),
        batch_failures(recs.push(rec)) == batch_failures(recs) + (match spec_derive(rec.email@) {
            Ok(_) => Seq::empty(),
            Err(e) => seq![(rec.email@, e)],
        }),
    decreases recs.len(),
{
    let tail_msgs = (match spec_derive(rec.email@) {
        Ok(id) => render_model(t, id, rec, hide_password_from_cc),
        Err(_) => Seq::<MessageModel>::empty(),
    });
    let tail_fails = (match spec_derive(rec.email@) {
        Ok(_) => Seq::<(Seq<char>, AppError)>::empty(),
        Err(e) => seq![(rec.email@, e)],
    });
    if recs.len() == 0 {
        assert(recs.push(rec)[0] == rec);
        assert(recs.push(rec).skip(1) =~= Seq::<RecipientRecord>::empty());
        assert(recs =~= Seq::<RecipientRecord>::empty());
        assert(batch_msgs(t, Seq::<RecipientRecord>::empty(), hide_password_from_cc)
            == Seq::<MessageModel>::empty());
        assert(batch_failures(Seq::<RecipientRecord>::empty()) == Seq::<(
            Seq<char>,
            AppError,
        )>::empty());
        assert(batch_msgs(t, recs.push(rec), hide_password_from_cc) =~= tail_msgs);
        assert(batch_msgs(t, recs, hide_password_from_cc) + tail_msgs =~= tail_msgs);
        assert(batch_failures(recs.push(rec)) =~= tail_fails);
        assert(batch_failures(recs) + tail_fails =~= tail_fails);
    } else {
        lemma_batch_push(t, recs.skip(1), rec, hide_password_from_cc);
        assert(recs.push(rec).skip(1) =~= recs.skip(1).push(rec));
        assert(recs.push(rec)[0] == recs[0]);
        let head_msgs = (match spec_derive(recs[0].email@) {
            Ok(id) => render_model(t, id, recs[0], hide_password_from_cc),
            Err(_) => Seq::<MessageModel>::empty(),
        });
        let head_fails = (match spec_derive(recs[0].email@) {
            Ok(_) => Seq::<(Seq<char>, AppError)>::empty(),
            Err(e) => seq![(recs[0].email@, e)],
        });
        assert(head_msgs + (batch_msgs(t, recs.skip(1), hide_password_from_cc) + tail_msgs) =~= (
        head_msgs + batch_msgs(t, recs.skip(1), hide_password_from_cc)) + tail_msgs);
        assert(head_fails + (batch_failures(recs.skip(1)) + tail_fails) =~= (head_fails
            + batch_failures(recs.skip(1))) + tail_fails);
    }
}

/// Runs the whole batch: derives each recipient's identity, renders the
/// successes in order, and collects each failing recipient's address
/// and error, never aborting the batch on a bad address.
pub fn create_emails(
    template: &MessageTemplate,
    recipients: &Vec<RecipientRecord>,
    hide_password_from_cc: bool,
) -> (r: (Vec<RenderedMessage>, Vec<(String, AppError)>))
    ensures
        r.0@.map_values(|m: RenderedMessage| m@) == batch_msgs(
            *template,
            recipients@,
            hide_password_from_cc,
        ),
        r.1@.map_values(|f: (String, AppError)| (f.0@, f.1)) == batch_failures(recipients@),
{
    let mut msgs: Vec<RenderedMessage> = Vec::new();
    let mut failures: Vec<(String, AppError)> = Vec::new();
    let n = recipients.len();
    let mut i: usize = 0;
    proof {
        assert(recipients@.take(0) =~= Seq::<RecipientRecord>::empty());
        assert(msgs@.map_values(|m: RenderedMessage| m@) =~= batch_msgs(
            *template,
            recipients@.take(0),
            hide_password_from_cc,
        ));
        assert(failures@.map_values(|f: (String, AppError)| (f.0@, f.1)) =~= batch_failures(
            recipients@.take(0),
        ));
    }
    while i < n
        invariant
            n == recipients@.len(),
            i <= n,
            msgs@.map_values(|m: RenderedMessage| m@) == batch_msgs(
                *template,
                recipients@.take(i as int),
                hide_password_from_cc,
            ),
            failures@.map_values(|f: (String, AppError)| (f.0@, f.1)) == batch_failures(
                recipients@.take(i as int),
            ),
        decreases n - i,
    {
        let rec = &recipients[i];
        proof {
            lemma_batch_push(
                *template,
                recipients@.take(i as int),
                recipients@[i as int],
                hide_password_from_cc,
            );
            assert(recipients@.take(i as int).push(recipients@[i as int]) =~= recipients@.take(
                i + 1,
            ));
        }
        match crate::identity::derive(rec.email.as_str()) {
            Ok(id) => {
                let ghost msgs0 = msgs@;
                let mut fresh = render(template, &id, rec, hide_password_from_cc);
                let ghost fresh0 = fresh@;
                msgs.append(&mut fresh);
                proof {
                    assert(msgs@.map_values(|m: RenderedMessage| m@) =~= msgs0.map_values(
                        |m: RenderedMessage| m@,
                    ) + fresh0.map_values(|m: RenderedMessage| m@));
                }
            },
            Err(e) => {
                let ghost fails0 = failures@;
                failures.push((rec.email.clone(), e));
                proof {
                    assert(failures@.map_values(|f: (String, AppError)| (f.0@, f.1))
                        =~= fails0.map_values(|f: (String, AppError)| (f.0@, f.1)) + seq![
                        (recipients@[i as int].email@, e),
                    ]);
                }
            },
        }
        i = i + 1;
    }
    proof {
        assert(recipients@.take(n as int) =~= recipients@);
    }
    (msgs, failures)
}

/// A template from which all six placeholder tokens are absent renders
/// verbatim: substitution leaves the text unchanged.
pub proof fn lemma_no_placeholders_verbatim(
    text: Seq<char>,
    un: Seq<char>,
    fname: Seq<char>,
    pw: Seq<char>,
    v1: Seq<char>,
    v2: Seq<char>,
    v3: Seq<char>,
)
    requires
        !contains_seq(text, "{username}"@),
        !contains_seq(text, "{fullname}"@),
        !contains_seq(text, "{password}"@),
        !contains_seq(text, "{var1}"@),
        !contains_seq(text, "{var2}"@),
        !contains_seq(text, "{var3}"@),
    ensures
        subst(text, un, fname, pw, v1, v2, v3) == text,
{
    reveal_strlit("{username}");
    reveal_strlit("{fullname}");
    reveal_strlit("{password}");
    reveal_strlit("{var1}");
    reveal_strlit("{var2}");
    reveal_strlit("{var3}");
    lemma_replace_absent(text, "{username}"@, un);
    lemma_replace_absent(text, "{fullname}"@, fname);
    lemma_replace_absent(text, "{password}"@, pw);
    lemma_replace_absent(text, "{var1}"@, v1);
    lemma_replace_absent(text, "{var2}"@, v2);
    lemma_replace_absent(text, "{var3}"@, v3);
}

/// A template from which all six placeholder tokens are absent, in
/// subject and body alike, renders verbatim: every emitted message
/// carries the template's subject and body unchanged, whatever the
/// identity, the recipient and the policy.
pub proof fn lemma_render_verbatim(
    t: MessageTemplate,
    id: IdentityModel,
    rec: RecipientRecord,
    hide_password_from_cc: bool,
)
    requires
        !contains_seq(t.subject@, "{username}"@),
        !contains_seq(t.subject@, "{fullname}"@),
        !contains_seq(t.subject@, "{password}"@),
        !contains_seq(t.subject@, "{var1}"@),
        !contains_seq(t.subject@, "{var2}"@),
        !contains_seq(t.subject@, "{var3}"@),
        !contains_seq(t.body@, "{username}"@),
        !contains_seq(t.body@, "{fullname}"@),
        !contains_seq(t.body@, "{password}"@),
        !contains_seq(t.body@, "{var1}"@),
        !contains_seq(t.body@, "{var2}"@),
        !contains_seq(t.body@, "{var3}"@),
    ensures
        forall|i: int|
            0 <= i < render_model(t, id, rec, hide_password_from_cc).len() ==> (#[trigger]
            render_model(t, id, rec, hide_password_from_cc)[i]).subject == t.subject@
                && render_model(t, id, rec, hide_password_from_cc)[i].body == t.body@,
{
    lemma_no_placeholders_verbatim(
        t.subject@,
        id.username,
        id.full_name,
        rec.password@,
        opt_text(rec.var1),
        opt_text(rec.var2),
        opt_text(rec.var3),
    );
    lemma_no_placeholders_verbatim(
        t.body@,
        id.username,
        id.full_name,
        rec.password@,
        opt_text(rec.var1),
        opt_text(rec.var2),
        opt_text(rec.var3),
    );
    lemma_no_placeholders_verbatim(
        t.body@,
        id.username,
        id.full_name,
        "[hidden]"@,
        opt_text(rec.var1),
        opt_text(rec.var2),
        opt_text(rec.var3),
    );
}

} // verus!
