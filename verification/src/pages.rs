//! The front door: the drive for a signed-in browser, the sign-in card for
//! everybody else. The first account is provisioned by signing in.
use crate::i18n;
use crate::i18n::{t, Key, Lang};
use crate::model::{StoreError, User};
use vstd::prelude::*;

verus! {

/// Which screen `/` is.
#[derive(Clone, Copy, Debug)]
pub enum Landing {
    /// Sent on to the drive.
    SendTo(&'static str),
    /// Offered the sign-in card.
    SignIn { blurb: &'static str, sign_in: &'static str },
    /// Told that the store failed to say.
    Note(&'static str),
}

/// Which screen `/` is, as a value.
pub enum LandingModel {
    SendTo(Seq<char>),
    SignIn(Seq<char>, Seq<char>),
    Note(Seq<char>),
}

impl View for Landing {
    type V = LandingModel;

    open spec fn view(&self) -> LandingModel {
        match *self {
            Landing::SendTo(location) => LandingModel::SendTo(location@),
            Landing::SignIn { blurb, sign_in } => LandingModel::SignIn(blurb@, sign_in@),
            Landing::Note(words) => LandingModel::Note(words@),
        }
    }
}

/// Which screen the front door is.
pub open spec fn landing_of(current: Result<Option<User>, StoreError>, lang: Lang) -> LandingModel {
    match current {
        Ok(Some(_)) => LandingModel::SendTo("/drive"@),
        Ok(None) => LandingModel::SignIn(
            i18n::phrase(lang, Key::WelcomeBlurb),
            i18n::phrase(lang, Key::SignIn),
        ),
        Err(_) => LandingModel::Note(i18n::phrase(lang, Key::SomethingWentWrong)),
    }
}

/// Which screen `/` is depends on the browser alone. A store that fails to say
/// is never a sign-in prompt.
pub fn landing(current: &Result<Option<User>, StoreError>, lang: Lang) -> (r: Landing)
    ensures
        r@ == landing_of(*current, lang),
{
    match current {
        Ok(Some(_)) => Landing::SendTo("/drive"),
        Ok(None) => Landing::SignIn {
            blurb: t(lang, Key::WelcomeBlurb),
            sign_in: t(lang, Key::SignIn),
        },
        Err(_) => Landing::Note(t(lang, Key::SomethingWentWrong)),
    }
}

} // verus!
