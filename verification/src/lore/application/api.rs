//! The single entry point for lore operations used by the UI.
use vstd::prelude::*;

use crate::infra::ShellCommand;
use crate::lore::application::cache::{BootstrapLoreData, CacheMode};
use crate::lore::application::dto::PatchsetDetails;
use crate::lore::application::errors::LoreError;
use crate::lore::domain::patch::Patch;
use crate::mailing_list::MailingList;

verus! {

/// Lore operations: mailing lists, user state, feed pages, patchset
/// details, reply commands and the git signature.
pub trait LoreServiceApi {
    /// The service's own consistency, kept by every operation.
    spec fn valid(&self) -> bool;

    /// Available mailing lists according to `mode`.
    fn fetch_available_lists(&mut self, mode: CacheMode) -> (r: Result<Vec<MailingList>, LoreError>)
        requires
            old(self).valid(),
        ensures
            final(self).valid(),
    ;

    fn load_bookmarked_patchsets(&self) -> Result<Vec<Patch>, LoreError>;

    fn save_bookmarked_patchsets(&self, patchsets: &[Patch]) -> Result<(), LoreError>;

    fn load_reviewed_patchsets(&self) -> Result<Vec<(String, Vec<usize>)>, LoreError>;

    fn save_reviewed_patchsets(&self, reviewed: &[(String, Vec<usize>)]) -> Result<(), LoreError>;

    /// The patches of page `page_number` (from 1) of `target_list`.
    fn fetch_next_patch_page(
        &mut self,
        target_list: &str,
        page_size: usize,
        page_number: usize,
    ) -> (r: Result<Vec<Patch>, LoreError>)
        requires
            old(self).valid(),
            page_size >= 1,
            page_number >= 1,
            page_size * page_number <= usize::MAX,
        ensures
            final(self).valid(),
    ;

    /// Forgets the feed state of `target_list`.
    fn reset_feed_cursor(&mut self, target_list: &str)
        requires
            old(self).valid(),
        ensures
            final(self).valid(),
    ;

    /// Downloads and splits the patchset of `representative_patch`.
    fn fetch_patchset_details(&self, representative_patch: &Patch) -> Result<
        PatchsetDetails,
        LoreError,
    >;

    /// The `git send-email` commands replying to the selected patches with
    /// a `Reviewed-by` trailer.
    fn prepare_reply_commands(
        &self,
        tmp_dir: &str,
        target_list: &str,
        patches: &[String],
        patches_to_reply: &[bool],
        git_signature: &str,
        git_send_email_options: &str,
    ) -> Result<Vec<ShellCommand>, LoreError>
        requires
            patches_to_reply@.len() >= patches@.len(),
    ;

    /// `(user.name, user.email)` from `git config` for a repository path,
    /// or the global configuration for an empty path.
    fn get_git_signature(&self, git_repo_path: &str) -> (String, String);

    /// Everything the application starts from.
    fn warm_bootstrap_cache(&mut self) -> (r: Result<BootstrapLoreData, LoreError>)
        requires
            old(self).valid(),
        ensures
            final(self).valid(),
    ;
}

} // verus!
