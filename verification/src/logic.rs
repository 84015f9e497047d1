//! One function for each cipher command: from the directives, the key
//! material and the text that was read to what is written, and where.

use crate::ciphers::{invoke, transformed, Cipher};
use crate::directive::{directive_view, planned, resolve, Sink};
use crate::error::{DispatchError, UsageError};
use crate::subcommands::Commands;
use vstd::prelude::*;

verus! {

/// What a run hands over to be written.
#[derive(Clone, Debug, PartialEq, Eq)]
pub struct Delivery {
    /// Where the content goes.
    pub sink: Sink,
    /// The characters to write there, all of them and no more.
    pub content: String,
}

/// The characters that are written to a sink for a result: the result
/// itself for the output file, the result and a line feed for standard
/// output.
pub open spec fn rendered(sink: Sink, text: Seq<char>) -> Seq<char> {
    match sink {
        Sink::OutputFile => text,
        Sink::Stdout => text.push('\n'),
    }
}

/// The outcome of a command: the sink and what is written to it, or the
/// error that ends the run.
///
/// A cipher without key material is a usage error, and so are conflicting
/// directives; neither looks at the text. Then the cipher runs in the
/// direction that the directives give, and its error ends the run.
pub open spec fn outcome(
    encrypt: Option<Seq<char>>,
    decrypt: Option<Seq<char>>,
    cipher: Cipher,
    input: Seq<char>,
) -> Result<(Sink, Seq<char>), DispatchError> {
    if !cipher.has_key_material() {
        Err(DispatchError::Usage(UsageError::MissingKeyMaterial))
    } else {
        match planned(encrypt, decrypt) {
            Err(e) => Err(DispatchError::Usage(e)),
            Ok(plan) => match transformed(cipher, plan.direction, input) {
                Err(e) => Err(DispatchError::CipherOperation(e)),
                Ok(text) => Ok((plan.sink, rendered(plan.sink, text))),
            },
        }
    }
}

/// A delivery or an error, with the content viewed.
pub open spec fn delivery_view(r: Result<Delivery, DispatchError>) -> Result<
    (Sink, Seq<char>),
    DispatchError,
> {
    match r {
        Ok(delivery) => Ok((delivery.sink, delivery.content@)),
        Err(e) => Err(e),
    }
}

/// Makes the delivery of a cipher's result to a sink.
pub fn deliver(sink: Sink, text: String) -> (delivery: Delivery)
    ensures
        delivery.sink == sink,
        delivery.content@ == rendered(sink, text@),
{
    match sink {
        Sink::OutputFile => Delivery { sink, content: text },
        Sink::Stdout => {
            let mut content = text;
            content.push('\n');
            Delivery { sink, content }
        },
    }
}

/// Runs a cipher as the two directives say on the text that was read for
/// them.
pub fn run(
    encrypt_flag: &Option<String>,
    decrypt_flag: &Option<String>,
    cipher: &Cipher,
    input: &str,
) -> (r: Result<Delivery, DispatchError>)
    ensures
        delivery_view(r) == outcome(
            directive_view(*encrypt_flag),
            directive_view(*decrypt_flag),
            *cipher,
            input@,
        ),
{
    if !cipher.key_material_present() {
        return Err(DispatchError::Usage(UsageError::MissingKeyMaterial));
    }
    match resolve(encrypt_flag, decrypt_flag) {
        Err(e) => Err(DispatchError::Usage(e)),
        Ok(plan) => match invoke(cipher, plan.direction, input) {
            Err(e) => Err(DispatchError::CipherOperation(e)),
            Ok(text) => Ok(deliver(plan.sink, text)),
        },
    }
}

/// The Atbash command on the text that was read for it.
pub fn atbash(encrypt_flag: Option<String>, decrypt_flag: Option<String>, input: &str) -> (r:
    Result<Delivery, DispatchError>)
    ensures
        delivery_view(r) == outcome(
            directive_view(encrypt_flag),
            directive_view(decrypt_flag),
            Cipher::Atbash,
            input@,
        ),
{
    run(&encrypt_flag, &decrypt_flag, &Cipher::Atbash, input)
}

/// The affine command on the text that was read for it.
pub fn affine(
    encrypt_flag: Option<String>,
    decrypt_flag: Option<String>,
    a: i32,
    b: i32,
    input: &str,
) -> (r: Result<Delivery, DispatchError>)
    ensures
        delivery_view(r) == outcome(
            directive_view(encrypt_flag),
            directive_view(decrypt_flag),
            (Cipher::Affine { a, b }),
            input@,
        ),
{
    run(&encrypt_flag, &decrypt_flag, &Cipher::Affine { a, b }, input)
}

/// The Caesar command on the text that was read for it.
pub fn caesar(
    encrypt_flag: Option<String>,
    decrypt_flag: Option<String>,
    shift: u8,
    input: &str,
) -> (r: Result<Delivery, DispatchError>)
    ensures
        delivery_view(r) == outcome(
            directive_view(encrypt_flag),
            directive_view(decrypt_flag),
            (Cipher::Caesar { shift }),
            input@,
        ),
{
    run(&encrypt_flag, &decrypt_flag, &Cipher::Caesar { shift }, input)
}

/// The Playfair command on the text that was read for it.
pub fn playfair(
    encrypt_flag: Option<String>,
    decrypt_flag: Option<String>,
    key: String,
    input: &str,
) -> (r: Result<Delivery, DispatchError>)
    ensures
        delivery_view(r) == outcome(
            directive_view(encrypt_flag),
            directive_view(decrypt_flag),
            (Cipher::Playfair { key }),
            input@,
        ),
{
    run(&encrypt_flag, &decrypt_flag, &Cipher::Playfair { key }, input)
}

/// The ROT13 command on the text that was read for it.
pub fn rot13(encrypt_flag: Option<String>, decrypt_flag: Option<String>, input: &str) -> (r:
    Result<Delivery, DispatchError>)
    ensures
        delivery_view(r) == outcome(
            directive_view(encrypt_flag),
            directive_view(decrypt_flag),
            Cipher::Rot13,
            input@,
        ),
{
    run(&encrypt_flag, &decrypt_flag, &Cipher::Rot13, input)
}

/// The one-time pad command on the text that was read for it.
pub fn otp(
    encrypt_flag: Option<String>,
    decrypt_flag: Option<String>,
    pad: Vec<u8>,
    input: &str,
) -> (r: Result<Delivery, DispatchError>)
    ensures
        delivery_view(r) == outcome(
            directive_view(encrypt_flag),
            directive_view(decrypt_flag),
            (Cipher::OneTimePad { pad }),
            input@,
        ),
{
    run(&encrypt_flag, &decrypt_flag, &Cipher::OneTimePad { pad }, input)
}

/// Runs a command on the text that was read for it.
pub fn dispatch(command: Commands, input: &str) -> (r: Result<Delivery, DispatchError>)
    ensures
        delivery_view(r) == outcome(
            command.encrypt_directive(),
            command.decrypt_directive(),
            command.cipher(),
            input@,
        ),
{
    match command {
        Commands::Atbash { encrypt, decrypt } => atbash(encrypt, decrypt, input),
        Commands::Affine { encrypt, decrypt, a, b } => affine(encrypt, decrypt, a, b, input),
        Commands::Caesar { encrypt, decrypt, shift } => caesar(encrypt, decrypt, shift, input),
        Commands::Rot13 { encrypt, decrypt } => rot13(encrypt, decrypt, input),
        Commands::Playfair { encrypt, decrypt, key } => playfair(encrypt, decrypt, key, input),
        Commands::OTP { encrypt, decrypt, pad } => otp(encrypt, decrypt, pad, input),
    }
}

} // verus!
