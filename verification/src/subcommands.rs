//! The commands of the command line, one for each cipher.

use crate::ciphers::Cipher;
use crate::directive::{directive_view, plan_view, planned, resolve, Plan, PlanView};
use crate::error::UsageError;
use vstd::prelude::*;

verus! {

/// A cipher command: the two directives and the key material of the cipher.
///
/// `encrypt` and `decrypt` each name the file to read. At most one of them
/// may be given; with none, standard input is encrypted.
#[derive(Clone, Debug, PartialEq, Eq)]
pub enum Commands {
    /// The Atbash cipher.
    Atbash { encrypt: Option<String>, decrypt: Option<String> },
    /// The affine cipher with its two coefficients.
    Affine { encrypt: Option<String>, decrypt: Option<String>, a: i32, b: i32 },
    /// The Caesar cipher with its shift.
    Caesar { encrypt: Option<String>, decrypt: Option<String>, shift: u8 },
    /// ROT13.
    Rot13 { encrypt: Option<String>, decrypt: Option<String> },
    /// The Playfair cipher with its key.
    Playfair { encrypt: Option<String>, decrypt: Option<String>, key: String },
    /// The one-time pad with its pad.
    OTP { encrypt: Option<String>, decrypt: Option<String>, pad: Vec<u8> },
}

impl Commands {
    /// The affine command of a command line that may lack a coefficient:
    /// the command where both are there, a usage error otherwise.
    pub fn new_affine(
        encrypt: Option<String>,
        decrypt: Option<String>,
        a: Option<i32>,
        b: Option<i32>,
    ) -> (r: Result<Commands, UsageError>)
        ensures
            r == (match (a, b) {
                (Some(a), Some(b)) => Ok(Commands::Affine { encrypt, decrypt, a, b }),
                _ => Err(UsageError::MissingKeyMaterial),
            }),
    {
        match (a, b) {
            (Some(a), Some(b)) => Ok(Commands::Affine { encrypt, decrypt, a, b }),
            _ => Err(UsageError::MissingKeyMaterial),
        }
    }

    /// The Caesar command of a command line that may lack the shift: the
    /// command where it is there, a usage error otherwise.
    pub fn new_caesar(encrypt: Option<String>, decrypt: Option<String>, shift: Option<u8>) -> (r:
        Result<Commands, UsageError>)
        ensures
            r == (match shift {
                Some(shift) => Ok(Commands::Caesar { encrypt, decrypt, shift }),
                None => Err(UsageError::MissingKeyMaterial),
            }),
    {
        match shift {
            Some(shift) => Ok(Commands::Caesar { encrypt, decrypt, shift }),
            None => Err(UsageError::MissingKeyMaterial),
        }
    }

    /// The Playfair command of a command line that may lack the key: the
    /// command where it is there, be it empty, a usage error otherwise.
    pub fn new_playfair(
        encrypt: Option<String>,
        decrypt: Option<String>,
        key: Option<String>,
    ) -> (r: Result<Commands, UsageError>)
        ensures
            r == (match key {
                Some(key) => Ok(Commands::Playfair { encrypt, decrypt, key }),
                None => Err(UsageError::MissingKeyMaterial),
            }),
    {
        match key {
            Some(key) => Ok(Commands::Playfair { encrypt, decrypt, key }),
            None => Err(UsageError::MissingKeyMaterial),
        }
    }

    /// The one-time pad command of a command line that may lack the pad:
    /// the command where the pad has a byte, a usage error otherwise.
    pub fn new_otp(encrypt: Option<String>, decrypt: Option<String>, pad: Vec<u8>) -> (r: Result<
        Commands,
        UsageError,
    >)
        ensures
            r == (if pad@.len() > 0 {
                Ok(Commands::OTP { encrypt, decrypt, pad })
            } else {
                Err(UsageError::MissingKeyMaterial)
            }),
    {
        if pad.len() > 0 {
            Ok(Commands::OTP { encrypt, decrypt, pad })
        } else {
            Err(UsageError::MissingKeyMaterial)
        }
    }

    /// The encrypt directive of the command.
    pub open spec fn encrypt_directive(self) -> Option<Seq<char>> {
        match self {
            Commands::Atbash { encrypt, .. } => directive_view(encrypt),
            Commands::Affine { encrypt, .. } => directive_view(encrypt),
            Commands::Caesar { encrypt, .. } => directive_view(encrypt),
            Commands::Rot13 { encrypt, .. } => directive_view(encrypt),
            Commands::Playfair { encrypt, .. } => directive_view(encrypt),
            Commands::OTP { encrypt, .. } => directive_view(encrypt),
        }
    }

    /// The decrypt directive of the command.
    pub open spec fn decrypt_directive(self) -> Option<Seq<char>> {
        match self {
            Commands::Atbash { decrypt, .. } => directive_view(decrypt),
            Commands::Affine { decrypt, .. } => directive_view(decrypt),
            Commands::Caesar { decrypt, .. } => directive_view(decrypt),
            Commands::Rot13 { decrypt, .. } => directive_view(decrypt),
            Commands::Playfair { decrypt, .. } => directive_view(decrypt),
            Commands::OTP { decrypt, .. } => directive_view(decrypt),
        }
    }

    /// The cipher of the command with its key material.
    pub open spec fn cipher(self) -> Cipher {
        match self {
            Commands::Atbash { .. } => Cipher::Atbash,
            Commands::Affine { a, b, .. } => Cipher::Affine { a, b },
            Commands::Caesar { shift, .. } => Cipher::Caesar { shift },
            Commands::Rot13 { .. } => Cipher::Rot13,
            Commands::Playfair { key, .. } => Cipher::Playfair { key },
            Commands::OTP { pad, .. } => Cipher::OneTimePad { pad },
        }
    }

    /// What the command asks for: a usage error for missing key material
    /// and for conflicting directives, in this order; the plan of its
    /// directives otherwise.
    pub open spec fn planned(self) -> Result<PlanView, UsageError> {
        if !self.cipher().has_key_material() {
            Err(UsageError::MissingKeyMaterial)
        } else {
            planned(self.encrypt_directive(), self.decrypt_directive())
        }
    }

    /// Checks the command and says what is to be read, which operation is
    /// to run and where the result is to go. Nothing is read for this.
    pub fn plan(&self) -> (r: Result<Plan, UsageError>)
        ensures
            plan_view(r) == self.planned(),
    {
        match self {
            Commands::Atbash { encrypt, decrypt } => resolve(encrypt, decrypt),
            Commands::Affine { encrypt, decrypt, .. } => resolve(encrypt, decrypt),
            Commands::Caesar { encrypt, decrypt, .. } => resolve(encrypt, decrypt),
            Commands::Rot13 { encrypt, decrypt } => resolve(encrypt, decrypt),
            Commands::Playfair { encrypt, decrypt, .. } => resolve(encrypt, decrypt),
            Commands::OTP { encrypt, decrypt, pad } => {
                if pad.len() == 0 {
                    Err(UsageError::MissingKeyMaterial)
                } else {
                    resolve(encrypt, decrypt)
                }
            },
        }
    }
}

} // verus!
