//! What can go wrong in the lore service.
use vstd::prelude::*;

use crate::lore::infrastructure::http_lore_client::LoreHttpError;

verus! {

#[derive(Debug, Clone, PartialEq, Eq)]
pub enum LoreError {
    Http(LoreHttpError),
    Persistence(String),
    Parse(String),
    PatchNotFound(String),
    EndOfFeed,
}

pub open spec fn http_error_message(e: LoreHttpError) -> Seq<char> {
    match e {
        LoreHttpError::Net(s) => s@,
        LoreHttpError::EndOfFeed => "feed ended"@,
    }
}

pub open spec fn lore_error_message(e: LoreError) -> Seq<char> {
    match e {
        LoreError::Http(h) => "http error: "@ + http_error_message(h),
        LoreError::Persistence(s) => "persistence error: "@ + s@,
        LoreError::Parse(s) => "parse error: "@ + s@,
        LoreError::PatchNotFound(s) => "patchset not found: "@ + s@,
        LoreError::EndOfFeed => "feed ended"@,
    }
}

impl LoreError {
    pub fn message(&self) -> (r: String)
        ensures
            r@ == lore_error_message(*self),
    {
        match self {
            LoreError::Http(h) => {
                let mut m = String::from_str("http error: ");
                match h {
                    LoreHttpError::Net(s) => m.append(s.as_str()),
                    LoreHttpError::EndOfFeed => m.append("feed ended"),
                }
                m
            },
            LoreError::Persistence(s) => {
                let mut m = String::from_str("persistence error: ");
                m.append(s.as_str());
                m
            },
            LoreError::Parse(s) => {
                let mut m = String::from_str("parse error: ");
                m.append(s.as_str());
                m
            },
            LoreError::PatchNotFound(s) => {
                let mut m = String::from_str("patchset not found: ");
                m.append(s.as_str());
                m
            },
            LoreError::EndOfFeed => String::from_str("feed ended"),
        }
    }
}

} // verus!
