//! Credential configuration choices.
//!
//! The unverified shell reads the profile file and the environment; the
//! decisions — which profile applies, which endpoint and which credentials
//! win — are made here over plain values.

use vstd::prelude::*;

verus! {

/// One profile from the configuration file.
#[derive(Debug)]
pub struct Profile {
    pub token_id: Option<String>,
    pub token_secret: Option<String>,
    pub active: bool,
}

/// Picks the profile the configuration designates: the first profile marked
/// active, else the first profile, else none.
pub fn choose_profile(profiles: &Vec<Profile>) -> (r: Option<usize>)
    ensures
        (exists|j: int| 0 <= j < profiles@.len() && profiles@[j].active) ==> (r matches Some(i)
            && 0 <= i < profiles@.len() && profiles@[i as int].active && (forall|j: int|
            0 <= j < i ==> !profiles@[j].active)),
        profiles@.len() > 0 && (forall|j: int| 0 <= j < profiles@.len() ==> !profiles@[j].active)
            ==> r == Some(0usize),
        profiles@.len() == 0 ==> r is None,
{
    let mut i: usize = 0;
    while i < profiles.len()
        invariant
            0 <= i <= profiles@.len(),
            forall|j: int| 0 <= j < i ==> !profiles@[j].active,
        decreases profiles@.len() - i,
    {
        if profiles[i].active {
            return Some(i);
        }
        i = i + 1;
    }
    if profiles.len() > 0 {
        Some(0)
    } else {
        None
    }
}

/// The default control-plane endpoint.
pub open spec fn default_server_url_spec() -> Seq<char> {
    "https://api.modal.com:443"@
}

/// The endpoint to connect to: an explicitly passed URL wins, else the
/// environment's, else the default endpoint.
pub fn effective_server_url(explicit: Option<String>, env_url: Option<String>) -> (r: String)
    ensures
        explicit matches Some(u) ==> r@ == u@,
        explicit is None ==> (env_url matches Some(u) ==> r@ == u@),
        explicit is None && env_url is None ==> r@ == default_server_url_spec(),
{
    match explicit {
        Some(u) => u,
        None => match env_url {
            Some(u) => u,
            None => {
                let s = "https://api.modal.com:443";
                s.to_owned()
            },
        },
    }
}

/// The credential to attach: an explicitly passed value wins, else the
/// environment's.
pub fn prefer_explicit(explicit: Option<String>, env_val: Option<String>) -> (r: Option<String>)
    ensures
        explicit is Some ==> r == explicit,
        explicit is None ==> r == env_val,
{
    match explicit {
        Some(v) => Some(v),
        None => env_val,
    }
}

} // verus!
