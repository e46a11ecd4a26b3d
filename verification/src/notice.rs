//! What the operator is told in the course of a claim's run.
use vstd::prelude::*;
use vstd::string::*;
use crate::claim_flow::{ClaimFlavor, DeadReason, Job, Notice};
use crate::operator_message::{fmt_text, part_texts, OperatorMessage, Part};
use crate::session::{COOKIE_DEAD_MSG, COOKIE_DEAD_SELFHEAL_MSG};
use crate::text::{decimal, decimal_of};
use crate::wording;

verus! {

impl DeadReason {
    /// The reason that is recorded on the claim.
    pub open spec fn text(self) -> Seq<char> {
        match self {
            DeadReason::Said { msg, code } => match code {
                Some(c) => msg@ + " [code: "@ + c@ + "]"@,
                None => msg@,
            },
            DeadReason::MarkedExpired { machine_name } => "tpk "@ + machine_name@
                + " is marked expired on the order (structural is_expired)"@,
        }
    }

    /// The reason that is recorded on the claim.
    pub fn words(&self) -> (r: String)
        ensures
            r@ == self.text(),
    {
        match self {
            DeadReason::Said { msg, code } => match code {
                Some(c) => msg.clone().concat(" [code: ").concat(c.as_str()).concat("]"),
                None => msg.clone(),
            },
            DeadReason::MarkedExpired { machine_name } => String::from_str("tpk ").concat(
                machine_name.as_str(),
            ).concat(" is marked expired on the order (structural is_expired)"),
        }
    }
}

/// What a refused write says of the token it carried.
pub open spec fn csrf_note(minted: bool) -> Seq<char> {
    if minted {
        wording::CSRF_MINTED@
    } else {
        wording::CSRF_CAPTURED@
    }
}

impl Notice {
    /// The wording, by the kind of claim.
    pub open spec fn template(self, job: Job) -> Seq<char> {
        let gift = job.flavor == ClaimFlavor::Gift;
        match self {
            Notice::SessionDead => if job.self_login {
                COOKIE_DEAD_SELFHEAL_MSG@
            } else {
                COOKIE_DEAD_MSG@
            },
            Notice::UrlUnsaved(_) => if job.choice {
                wording::CHOICE_URL_UNSAVED@
            } else {
                wording::URL_UNSAVED@
            },
            Notice::KeyUnsaved(_) => wording::KEY_UNSAVED@,
            Notice::CompensateFailed(_) => wording::COMPENSATE_FAILED@,
            Notice::StepUpFailed { .. } => if gift && job.choice {
                wording::CHOICE_GIFT_STEP_UP_FAILED@
            } else if gift {
                wording::GIFT_STEP_UP_FAILED@
            } else if job.choice {
                wording::CHOICE_SELF_STEP_UP_FAILED@
            } else {
                wording::SELF_STEP_UP_FAILED@
            },
            Notice::AuthRejected { .. } => if !gift {
                wording::CHOICE_SELF_AUTH_REJECTED@
            } else if job.choice {
                wording::CHOICE_GIFT_AUTH_REJECTED@
            } else {
                wording::GIFT_AUTH_REJECTED@
            },
            Notice::KeyDead { cause } => if cause is MarkedExpired {
                wording::KEY_MARKED_EXPIRED@
            } else if !job.choice {
                wording::KEY_DEAD@
            } else if gift {
                wording::CHOICE_GIFT_KEY_DEAD@
            } else {
                wording::CHOICE_SELF_KEY_DEAD@
            },
            Notice::RetireFailed { marked, .. } => if marked {
                wording::MARKED_RETIRE_FAILED@
            } else {
                wording::RETIRE_FAILED@
            },
            Notice::PickAlreadyRedeemed { .. } => wording::PICK_ALREADY_REDEEMED@,
            Notice::ChoiceAlreadyRedeemed => wording::CHOICE_ALREADY_REDEEMED@,
            Notice::NoKeyValue { .. } => wording::NO_KEY_VALUE@,
            Notice::PickStepUpFailed { .. } => wording::PICK_STEP_UP_FAILED@,
            Notice::PickRefused { .. } => wording::PICK_REFUSED@,
            Notice::NoTpkYet { .. } => wording::NO_TPK_YET@,
            Notice::AmbiguousTpk { .. } => wording::AMBIGUOUS_TPK@,
        }
    }

    /// What fills the wording's places.
    pub open spec fn args(self, job: Job) -> Seq<Seq<char>> {
        let claim = job.claim_id@;
        match self {
            Notice::SessionDead => seq![],
            Notice::UrlUnsaved(e) => seq![claim, Part::Error(e).text()],
            Notice::KeyUnsaved(e) => seq![claim, Part::Error(e).text()],
            Notice::CompensateFailed(e) => seq![claim, Part::Error(e).text()],
            Notice::StepUpFailed { machine_name, reason } => seq![claim, machine_name@, reason@],
            Notice::AuthRejected { machine_name, status, csrf_minted } => seq![
                claim,
                machine_name@,
                decimal(status as nat),
                csrf_note(csrf_minted),
            ],
            Notice::KeyDead { cause } => match cause {
                DeadReason::MarkedExpired { machine_name } => seq![
                    claim,
                    job.game_id@,
                    machine_name@,
                ],
                _ => seq![claim, job.game_id@, cause.text()],
            },
            Notice::RetireFailed { error, .. } => seq![claim, Part::Error(error).text()],
            Notice::PickAlreadyRedeemed { title } => seq![claim, title@],
            Notice::ChoiceAlreadyRedeemed => seq![claim],
            Notice::NoKeyValue { machine_name } => seq![claim, machine_name@],
            Notice::PickStepUpFailed { title, reason } => seq![claim, title@, reason@],
            Notice::PickRefused { title, reason } => seq![claim, title@, reason@],
            Notice::NoTpkYet { title } => seq![claim, title@],
            Notice::AmbiguousTpk { title } => seq![claim, title@],
        }
    }

    /// What the operator reads.
    pub open spec fn text(self, job: Job) -> Seq<char> {
        if self is SessionDead {
            self.template(job)
        } else {
            fmt_text(self.template(job), self.args(job))
        }
    }

    fn wording(&self, job: &Job) -> (r: &'static str)
        ensures
            r@ == self.template(*job),
    {
        let gift: bool = matches!(job.flavor, ClaimFlavor::Gift);
        match self {
            Notice::SessionDead => if job.self_login {
                COOKIE_DEAD_SELFHEAL_MSG
            } else {
                COOKIE_DEAD_MSG
            },
            Notice::UrlUnsaved(_) => if job.choice {
                wording::CHOICE_URL_UNSAVED
            } else {
                wording::URL_UNSAVED
            },
            Notice::KeyUnsaved(_) => wording::KEY_UNSAVED,
            Notice::CompensateFailed(_) => wording::COMPENSATE_FAILED,
            Notice::StepUpFailed { .. } => if gift && job.choice {
                wording::CHOICE_GIFT_STEP_UP_FAILED
            } else if gift {
                wording::GIFT_STEP_UP_FAILED
            } else if job.choice {
                wording::CHOICE_SELF_STEP_UP_FAILED
            } else {
                wording::SELF_STEP_UP_FAILED
            },
            Notice::AuthRejected { .. } => if !gift {
                wording::CHOICE_SELF_AUTH_REJECTED
            } else if job.choice {
                wording::CHOICE_GIFT_AUTH_REJECTED
            } else {
                wording::GIFT_AUTH_REJECTED
            },
            Notice::KeyDead { cause } => if matches!(cause, DeadReason::MarkedExpired { .. }) {
                wording::KEY_MARKED_EXPIRED
            } else if !job.choice {
                wording::KEY_DEAD
            } else if gift {
                wording::CHOICE_GIFT_KEY_DEAD
            } else {
                wording::CHOICE_SELF_KEY_DEAD
            },
            Notice::RetireFailed { marked, .. } => if *marked {
                wording::MARKED_RETIRE_FAILED
            } else {
                wording::RETIRE_FAILED
            },
            Notice::PickAlreadyRedeemed { .. } => wording::PICK_ALREADY_REDEEMED,
            Notice::ChoiceAlreadyRedeemed => wording::CHOICE_ALREADY_REDEEMED,
            Notice::NoKeyValue { .. } => wording::NO_KEY_VALUE,
            Notice::PickStepUpFailed { .. } => wording::PICK_STEP_UP_FAILED,
            Notice::PickRefused { .. } => wording::PICK_REFUSED,
            Notice::NoTpkYet { .. } => wording::NO_TPK_YET,
            Notice::AmbiguousTpk { .. } => wording::AMBIGUOUS_TPK,
        }
    }

    /// The message that is sent.
    pub fn message(self, job: &Job) -> (r: OperatorMessage)
        ensures
            r@ == self.text(*job),
    {
        let ghost want = self.args(*job);
        let template = self.wording(job);
        let claim = Part::Id(job.claim_id.as_str());
        match self {
            Notice::SessionDead => OperatorMessage::literal(template),
            Notice::UrlUnsaved(e) | Notice::KeyUnsaved(e) | Notice::CompensateFailed(e) => {
                let parts = [claim, Part::Error(e)];
                assert(part_texts(parts@) =~= want);
                OperatorMessage::fmt(template, &parts)
            },
            Notice::RetireFailed { error, .. } => {
                let parts = [claim, Part::Error(error)];
                assert(part_texts(parts@) =~= want);
                OperatorMessage::fmt(template, &parts)
            },
            Notice::StepUpFailed { machine_name, reason } => {
                let parts = [claim, Part::Id(machine_name.as_str()), Part::Id(reason.as_str())];
                assert(part_texts(parts@) =~= want);
                OperatorMessage::fmt(template, &parts)
            },
            Notice::AuthRejected { machine_name, status, csrf_minted } => {
                let number = decimal_of(status as u64);
                let note = if csrf_minted {
                    wording::CSRF_MINTED
                } else {
                    wording::CSRF_CAPTURED
                };
                let parts = [
                    claim,
                    Part::Id(machine_name.as_str()),
                    Part::Id(number.as_str()),
                    Part::Id(note),
                ];
                assert(part_texts(parts@) =~= want);
                OperatorMessage::fmt(template, &parts)
            },
            Notice::KeyDead { cause } => {
                let said = cause.words();
                let last = match &cause {
                    DeadReason::MarkedExpired { machine_name } => machine_name.as_str(),
                    _ => said.as_str(),
                };
                let parts = [claim, Part::Id(job.game_id.as_str()), Part::Id(last)];
                assert(part_texts(parts@) =~= want);
                OperatorMessage::fmt(template, &parts)
            },
            Notice::ChoiceAlreadyRedeemed => {
                let parts = [claim];
                assert(part_texts(parts@) =~= want);
                OperatorMessage::fmt(template, &parts)
            },
            Notice::NoKeyValue { machine_name } => {
                let parts = [claim, Part::Id(machine_name.as_str())];
                assert(part_texts(parts@) =~= want);
                OperatorMessage::fmt(template, &parts)
            },
            Notice::PickStepUpFailed { title, reason } | Notice::PickRefused { title, reason } => {
                let parts = [claim, Part::Id(title.as_str()), Part::Id(reason.as_str())];
                assert(part_texts(parts@) =~= want);
                OperatorMessage::fmt(template, &parts)
            },
            Notice::PickAlreadyRedeemed { title } | Notice::NoTpkYet { title }
            | Notice::AmbiguousTpk { title } => {
                let parts = [claim, Part::Id(title.as_str())];
                assert(part_texts(parts@) =~= want);
                OperatorMessage::fmt(template, &parts)
            },
        }
    }
}

// ---- What each notice says --------------------------------------------------------------------

/// A notice about a claim names the claim first, and then what it is about.
pub proof fn a_notice_names_its_claim(n: Notice, job: Job)
    ensures
        !(n is SessionDead) ==> n.args(job).len() > 0 && n.args(job)[0] == job.claim_id@,
        n matches Notice::UrlUnsaved(e) ==> n.args(job) == seq![job.claim_id@, Part::Error(e).text()],
        n matches Notice::KeyUnsaved(e) ==> n.args(job) == seq![job.claim_id@, Part::Error(e).text()],
        n matches Notice::CompensateFailed(e) ==> n.args(job) == seq![
            job.claim_id@,
            Part::Error(e).text(),
        ],
        n matches Notice::RetireFailed { error, .. } ==> n.args(job) == seq![
            job.claim_id@,
            Part::Error(error).text(),
        ],
        n matches Notice::StepUpFailed { machine_name, reason } ==> n.args(job) == seq![
            job.claim_id@,
            machine_name@,
            reason@,
        ],
        n matches Notice::AuthRejected { machine_name, status, csrf_minted } ==> n.args(job) == seq![
            job.claim_id@,
            machine_name@,
            decimal(status as nat),
            if csrf_minted {
                wording::CSRF_MINTED@
            } else {
                wording::CSRF_CAPTURED@
            },
        ],
        n matches Notice::KeyDead { cause } ==> n.args(job).len() == 3 && n.args(job)[1]
            == job.game_id@ && (match cause {
            DeadReason::MarkedExpired { machine_name } => n.args(job)[2] == machine_name@,
            DeadReason::Said { msg, code } => n.args(job)[2] == (match code {
                Some(c) => msg@ + " [code: "@ + c@ + "]"@,
                None => msg@,
            }),
        }),
        n matches Notice::PickAlreadyRedeemed { title } ==> n.args(job) == seq![job.claim_id@, title@],
        n is ChoiceAlreadyRedeemed ==> n.args(job) == seq![job.claim_id@],
        n matches Notice::NoKeyValue { machine_name } ==> n.args(job) == seq![
            job.claim_id@,
            machine_name@,
        ],
        n matches Notice::PickStepUpFailed { title, reason } ==> n.args(job) == seq![
            job.claim_id@,
            title@,
            reason@,
        ],
        n matches Notice::PickRefused { title, reason } ==> n.args(job) == seq![
            job.claim_id@,
            title@,
            reason@,
        ],
        n matches Notice::NoTpkYet { title } ==> n.args(job) == seq![job.claim_id@, title@],
        n matches Notice::AmbiguousTpk { title } ==> n.args(job) == seq![job.claim_id@, title@],
{
}

/// A notice is worded for a friend's claim or the owner's, and for a monthly pick or none.
pub proof fn a_notice_is_worded_for_its_claim(n: Notice, job: Job)
    ensures
        n is SessionDead ==> n.text(job) == (if job.self_login {
            COOKIE_DEAD_SELFHEAL_MSG@
        } else {
            COOKIE_DEAD_MSG@
        }),
        !(n is SessionDead) ==> n.text(job) == fmt_text(n.template(job), n.args(job)),
        n is StepUpFailed ==> n.template(job) == (match (job.flavor, job.choice) {
            (ClaimFlavor::Gift, true) => wording::CHOICE_GIFT_STEP_UP_FAILED@,
            (ClaimFlavor::Gift, false) => wording::GIFT_STEP_UP_FAILED@,
            (_, true) => wording::CHOICE_SELF_STEP_UP_FAILED@,
            (_, false) => wording::SELF_STEP_UP_FAILED@,
        }),
        n is AuthRejected ==> n.template(job) == (match (job.flavor, job.choice) {
            (ClaimFlavor::Gift, true) => wording::CHOICE_GIFT_AUTH_REJECTED@,
            (ClaimFlavor::Gift, false) => wording::GIFT_AUTH_REJECTED@,
            (_, _) => wording::CHOICE_SELF_AUTH_REJECTED@,
        }),
        n matches Notice::KeyDead { cause } ==> n.template(job) == (match (
            cause is MarkedExpired,
            job.flavor,
            job.choice,
        ) {
            (true, _, _) => wording::KEY_MARKED_EXPIRED@,
            (false, _, false) => wording::KEY_DEAD@,
            (false, ClaimFlavor::Gift, true) => wording::CHOICE_GIFT_KEY_DEAD@,
            (false, _, true) => wording::CHOICE_SELF_KEY_DEAD@,
        }),
        n is UrlUnsaved ==> n.template(job) == (if job.choice {
            wording::CHOICE_URL_UNSAVED@
        } else {
            wording::URL_UNSAVED@
        }),
        n matches Notice::RetireFailed { marked, .. } ==> n.template(job) == (if marked {
            wording::MARKED_RETIRE_FAILED@
        } else {
            wording::RETIRE_FAILED@
        }),
        n is KeyUnsaved ==> n.template(job) == wording::KEY_UNSAVED@,
        n is CompensateFailed ==> n.template(job) == wording::COMPENSATE_FAILED@,
        n is PickAlreadyRedeemed ==> n.template(job) == wording::PICK_ALREADY_REDEEMED@,
        n is ChoiceAlreadyRedeemed ==> n.template(job) == wording::CHOICE_ALREADY_REDEEMED@,
        n is NoKeyValue ==> n.template(job) == wording::NO_KEY_VALUE@,
        n is PickStepUpFailed ==> n.template(job) == wording::PICK_STEP_UP_FAILED@,
        n is PickRefused ==> n.template(job) == wording::PICK_REFUSED@,
        n is NoTpkYet ==> n.template(job) == wording::NO_TPK_YET@,
        n is AmbiguousTpk ==> n.template(job) == wording::AMBIGUOUS_TPK@,
{
}

/// A key that its order marks as expired is named on the claim; what the key store said of a dead key is
/// recorded word for word, with its code if it has one.
pub proof fn the_reason_is_recorded(msg: String, code: String, name: String)
    ensures
        (DeadReason::Said { msg, code: None }).text() == msg@,
        (DeadReason::Said { msg, code: Some(code) }).text() == msg@ + " [code: "@ + code@ + "]"@,
        (DeadReason::MarkedExpired { machine_name: name }).text() == "tpk "@ + name@
            + " is marked expired on the order (structural is_expired)"@,
{
}

} // verus!
