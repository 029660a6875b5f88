//! The data carried through the flow: the authenticated user profile and
//! the per-login session record.

use vstd::prelude::*;

verus! {

/// Mathematical shape of a profile: the four fields as character
/// sequences.
pub ghost struct ProfileView {
    pub user_id: Seq<char>,
    pub display_name: Seq<char>,
    pub picture_url: Seq<char>,
    pub status_message: Seq<char>,
}

/// Immutable record of the authenticated user, sourced verbatim from the
/// provider's profile endpoint.
pub struct Profile {
    user_id: String,
    display_name: String,
    picture_url: String,
    status_message: String,
}

impl View for Profile {
    type V = ProfileView;

    closed spec fn view(&self) -> ProfileView {
        ProfileView {
            user_id: self.user_id@,
            display_name: self.display_name@,
            picture_url: self.picture_url@,
            status_message: self.status_message@,
        }
    }
}

impl Clone for Profile {
    fn clone(&self) -> (r: Self)
        ensures
            r@ == self@,
    {
        Profile {
            user_id: self.user_id.clone(),
            display_name: self.display_name.clone(),
            picture_url: self.picture_url.clone(),
            status_message: self.status_message.clone(),
        }
    }
}

impl Profile {
    /// Builds a profile from its four fields.
    pub fn new(
        user_id: String,
        display_name: String,
        picture_url: String,
        status_message: String,
    ) -> (r: Profile)
        ensures
            r@ == (ProfileView {
                user_id: user_id@,
                display_name: display_name@,
                picture_url: picture_url@,
                status_message: status_message@,
            }),
    {
        Profile { user_id, display_name, picture_url, status_message }
    }

    pub fn user_id(&self) -> (r: &String)
        ensures
            r@ == self@.user_id,
    {
        &self.user_id
    }

    pub fn display_name(&self) -> (r: &String)
        ensures
            r@ == self@.display_name,
    {
        &self.display_name
    }

    pub fn picture_url(&self) -> (r: &String)
        ensures
            r@ == self@.picture_url,
    {
        &self.picture_url
    }

    pub fn status_message(&self) -> (r: &String)
        ensures
            r@ == self@.status_message,
    {
        &self.status_message
    }
}

/// The view of an optional profile.
pub open spec fn opt_profile_view(o: Option<Profile>) -> Option<ProfileView> {
    match o {
        Some(p) => Some(p@),
        None => None,
    }
}

/// Mathematical shape of a session record.
pub ghost struct SessionView {
    pub csrf_token: Seq<char>,
    pub pkce_code_verifier: Seq<char>,
    pub profile: Option<ProfileView>,
}

/// One login attempt's session: the CSRF token and PKCE verifier fixed at
/// creation, and the profile attached once the callback succeeds.
pub struct AuthState {
    profile: Option<Profile>,
    csrf_token: String,
    pkce_code_verifier: String,
}

impl View for AuthState {
    type V = SessionView;

    closed spec fn view(&self) -> SessionView {
        SessionView {
            csrf_token: self.csrf_token@,
            pkce_code_verifier: self.pkce_code_verifier@,
            profile: opt_profile_view(self.profile),
        }
    }
}

impl AuthState {
    /// A fresh, pending session: no profile yet.
    pub fn new_pending(csrf_token: String, pkce_code_verifier: String) -> (r: AuthState)
        ensures
            r@ == (SessionView {
                csrf_token: csrf_token@,
                pkce_code_verifier: pkce_code_verifier@,
                profile: None,
            }),
    {
        AuthState { profile: None, csrf_token, pkce_code_verifier }
    }

    pub fn csrf_token(&self) -> (r: &String)
        ensures
            r@ == self@.csrf_token,
    {
        &self.csrf_token
    }

    pub fn pkce_code_verifier(&self) -> (r: &String)
        ensures
            r@ == self@.pkce_code_verifier,
    {
        &self.pkce_code_verifier
    }

    pub fn profile(&self) -> (r: &Option<Profile>)
        ensures
            opt_profile_view(*r) == self@.profile,
    {
        &self.profile
    }

    /// The same session with the profile attached: the one mutation a
    /// session undergoes, inside the callback handler.
    pub fn with_profile(&self, profile: Profile) -> (r: AuthState)
        ensures
            r@ == (SessionView { profile: Some(profile@), ..self@ }),
    {
        AuthState {
            profile: Some(profile),
            csrf_token: self.csrf_token.clone(),
            pkce_code_verifier: self.pkce_code_verifier.clone(),
        }
    }
}

} // verus!
