//! Request bodies of the credential operations and of the admin-only
//! reference-data writes.
use vstd::prelude::*;

verus! {

/// Credentials presented at login.
pub struct LoginSchema {
    pub email: String,
    pub password: String,
}

/// What a new viewer submits to open an account.
pub struct PreRegisterSchema {
    pub email: String,
    pub first_name: String,
    pub last_name: String,
    pub password: String,
}

/// The emailed verification code, presented to activate an account.
pub struct RegisterSchema {
    pub verification_code: String,
    pub email: String,
}

/// A request for a password-reset link.
pub struct PreResetPasswordSchema {
    pub email: String,
}

/// The emailed reset token together with the new password.
pub struct ResetPasswordSchema {
    pub email: String,
    pub password: String,
    pub reset_password_token: String,
}

/// A new craft name (admin only).
pub struct CreateCraftSchema {
    pub name: String,
}

/// Renames a craft (admin only).
pub struct UpdateCraftSchema {
    pub old_name: String,
    pub new_name: String,
}

/// A new skill name (admin only).
pub struct CreateSkillSchema {
    pub name: String,
}

/// Renames a skill (admin only).
pub struct UpdateSkillSchema {
    pub old_name: String,
    pub new_name: String,
}

/// A new legal-form name (admin only).
pub struct CreateRechtsformSchema {
    pub name: String,
}

/// Renames a legal form (admin only).
pub struct UpdateRechtsformSchema {
    pub old_name: String,
    pub new_name: String,
}

} // verus!
