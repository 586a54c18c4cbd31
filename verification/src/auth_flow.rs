//! The password dialog that answers a program asking for authentication (a
//! `sudo` helper): what it shows and the one answer the program gets.
use vstd::prelude::*;

verus! {

/// Where the dialog stands.
#[derive(Debug, Clone)]
pub enum AuthFlowState {
    AwaitingPassword { prompt: String },
    Verifying,
    Success,
    Failed { message: String },
}

/// The dialog.  `answer_owed` tells whether the asking program still waits for its
/// answer; the screen delivers the answer that `submit` or `cancel` hands back.
pub struct AuthFlow {
    pub state: AuthFlowState,
    pub message: String,
    pub password: String,
    pub answer_owed: bool,
}

/// What a submission does: when an answer is owed, the password typed so far is
/// the answer and the dialog verifies; otherwise nothing is answered.  Either way
/// the typed password is cleared.
pub open spec fn submitted(o: AuthFlow, n: AuthFlow, r: Option<String>) -> bool {
    &&& n.password@.len() == 0
    &&& !n.answer_owed
    &&& n.message == o.message
    &&& if o.answer_owed {
        (r matches Some(p) && p@ == o.password@) && n.state is Verifying
    } else {
        r is None && n.state == o.state
    }
}

/// What a cancellation does: the program is told "no answer" when it still waits
/// (`sent_none`), the typed password is cleared, and the dialog shows the failure.
pub open spec fn cancelled(o: AuthFlow, n: AuthFlow, sent_none: bool) -> bool {
    &&& n.password@.len() == 0
    &&& !n.answer_owed
    &&& n.message == o.message
    &&& sent_none == o.answer_owed
    &&& n.state matches AuthFlowState::Failed { message } && message@ == "Authentication cancelled"@
}

/// `<String as zeroize::Zeroize>::zeroize`: the crate's source overwrites the
/// text's bytes and its spare capacity with zeros and then clears it, so the text
/// is empty afterwards; that is all that is stated.
#[verifier::external_body]
fn zeroize_text(s: &mut String)
    ensures
        final(s)@.len() == 0,
{
    zeroize::Zeroize::zeroize(s)
}

impl AuthFlow {
    pub open spec fn owes_answer(&self) -> bool {
        self.answer_owed
    }

    /// A dialog for a program that asks with `prompt`.
    pub fn new(prompt: String, message: String) -> (r: Self)
        ensures
            r.state == (AuthFlowState::AwaitingPassword { prompt }),
            r.message == message,
            r.password@.len() == 0,
            r.owes_answer(),
    {
        AuthFlow {
            state: AuthFlowState::AwaitingPassword { prompt },
            message,
            password: String::new(),
            answer_owed: true,
        }
    }

    /// Does the asking program still wait for its answer?
    pub fn is_answer_owed(&self) -> (r: bool)
        ensures
            r == self.owes_answer(),
    {
        self.answer_owed
    }

    /// The typed password becomes `value`.
    pub fn set_password(&mut self, value: String)
        ensures
            final(self).password == value,
            final(self).state == old(self).state,
            final(self).message == old(self).message,
            final(self).owes_answer() == old(self).owes_answer(),
    {
        self.clear_password();
        self.password = value;
    }

    /// Submits the typed password (see `submitted`); the result is the answer to
    /// deliver.
    pub fn submit(&mut self) -> (r: Option<String>)
        ensures
            submitted(*old(self), *final(self), r),
    {
        let password = self.password.clone();
        let owed = self.answer_owed;
        self.answer_owed = false;
        self.clear_password();
        if owed {
            self.state = AuthFlowState::Verifying;
            Some(password)
        } else {
            None
        }
    }

    /// Cancels the dialog (see `cancelled`); the result tells whether "no answer" is
    /// to be delivered.
    pub fn cancel(&mut self) -> (sent_none: bool)
        ensures
            cancelled(*old(self), *final(self), sent_none),
    {
        self.clear_password();
        let owed = self.answer_owed;
        self.answer_owed = false;
        self.state = AuthFlowState::Failed { message: String::from_str("Authentication cancelled") };
        owed
    }

    fn clear_password(&mut self)
        ensures
            final(self).password@.len() == 0,
            final(self).state == old(self).state,
            final(self).message == old(self).message,
            final(self).answer_owed == old(self).answer_owed,
    {
        zeroize_text(&mut self.password);
    }
}

/// The asking program gets at most one answer: after a submission or a
/// cancellation, a second submission answers nothing and a cancellation sends
/// nothing.
pub proof fn law_one_answer_per_prompt(a: AuthFlow, b: AuthFlow, c: AuthFlow, r: Option<String>, first_submit: bool, first_sent: bool, second: Option<String>, second_sent: bool, d: AuthFlow)
    requires
        (first_submit && submitted(a, b, r)) || (!first_submit && cancelled(a, b, first_sent)),
        submitted(b, c, second),
        cancelled(b, d, second_sent),
    ensures
        second is None,
        !second_sent,
        c.state == b.state,
{
}


/// The reply sent back to the asking program.
pub struct AskpassReply {
    pub password: Option<String>,
    pub cancelled: bool,
}

/// The reply for an answer: the password when one was given, else a cancellation
/// (also when the request could not be read or nobody could be asked).
pub fn askpass_reply(answer: Option<String>) -> (r: AskpassReply)
    ensures
        r.password == answer,
        r.cancelled == answer is None,
{
    match answer {
        Some(p) => AskpassReply { password: Some(p), cancelled: false },
        None => AskpassReply { password: None, cancelled: true },
    }
}

} // verus!
