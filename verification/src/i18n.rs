//! The texts of one UI language, as far as the logic puts sentences together.
use vstd::prelude::*;

verus! {

/// The UI languages.
#[derive(Clone, Copy, Debug, PartialEq, Eq, Structural)]
pub enum Lang {
    English,
    Turkish,
    Spanish,
    Russian,
}

/// The texts of one language. The tables themselves are the front end's.
pub struct Strings {
    pub save_error_prefix: &'static str,
    pub delete_error_prefix: &'static str,
    pub connect_error_prefix: &'static str,
    pub sftp_error_prefix: &'static str,
    pub ssh_import_error_prefix: &'static str,
    pub disconnected_prefix: &'static str,
    pub host_key_changed_prefix: &'static str,
    pub host_key_changed_suffix: &'static str,
    pub err_device_not_enrolled: &'static str,
    pub err_password_required_now: &'static str,
    pub err_vault_in_use: &'static str,
    pub err_totp_replayed: &'static str,
    pub err_totp_too_many_failures: &'static str,
    pub err_totp_invalid_code: &'static str,
    pub err_current_password_wrong: &'static str,
    pub vault_in_use_title: &'static str,
    pub vault_in_use_message: &'static str,
    pub schema_too_new_title: &'static str,
    pub schema_too_new_message: &'static str,
    pub delete_confirm_prefix: &'static str,
    pub delete_confirm_suffix: &'static str,
    pub delete_script_confirm_prefix: &'static str,
    pub delete_script_confirm_suffix: &'static str,
    pub delete_forward_confirm_prefix: &'static str,
    pub delete_forward_confirm_suffix: &'static str,
    pub status_auto_locked: &'static str,
    pub status_saved: &'static str,
    pub status_deleted: &'static str,
    pub status_imported_prefix: &'static str,
    pub status_imported_suffix: &'static str,
    pub status_script_saved: &'static str,
    pub status_script_deleted: &'static str,
    pub status_password_changed: &'static str,
    pub status_auto_lock_saved: &'static str,
    pub status_connect_mode_saved: &'static str,
    pub status_mode_changed: &'static str,
    pub transfer_nothing_selected: &'static str,
    pub transfer_title_upload: &'static str,
    pub transfer_title_download: &'static str,
    pub transfer_cancelled: &'static str,
    pub transfer_done_prefix: &'static str,
    pub transfer_done_separator: &'static str,
    pub transfer_failed_prefix: &'static str,
    pub log_exit_prefix: &'static str,
    pub log_skipped: &'static str,
    pub log_error_prefix: &'static str,
    pub log_timed_out_prefix: &'static str,
    pub log_timed_out_suffix: &'static str,
}

} // verus!
