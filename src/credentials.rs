use vstd::prelude::*;

verus! {

/// The OAuth client registration used to reach Google Calendar.
pub struct GoogleCredentials {
    pub client_id: String,
    pub client_secret: String,
}

impl GoogleCredentials {
    /// Whether a client secret has been entered.
    pub fn has_secret(&self) -> (r: bool)
        ensures
            r == (self.client_secret@.len() > 0),
    {
        !self.client_secret.as_str().is_empty()
    }
}

} // verus!
