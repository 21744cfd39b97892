//! The command surface over a parsed file: a prettified hexdump and a
//! raw binary dump, both computed from the flat memory image. The
//! caller decides what to do with the computed output (print it,
//! write it somewhere); nothing here touches the outside world.

use vstd::prelude::*;

use crate::file::spec_data_addresses_fit;
use crate::file::spec_flatten;
use crate::file::IHexFile;

verus! {

/// What went wrong while running a command. Writing a dump out may
/// fail in the caller's hands; that failure is carried here as text.
#[derive(Debug)]
pub enum RunCommandErr {
    FileNotProvided,
    IoError(String),
}

/// The output a command computes: the text of a prettified hexdump,
/// or the raw bytes of a binary dump.
#[derive(Debug)]
pub enum CommandOutput {
    Hexdump(String),
    Bindump(Vec<u8>),
}

/// The text pretty_hex::pretty_hex renders for given bytes.
pub uninterp spec fn pretty_hex_of(data: Seq<u8>) -> Seq<char>;

/// Relies on pretty_hex::pretty_hex: the rendered dump depends on the
/// bytes alone.
#[verifier::external_body]
fn pretty_hex_text(data: &Vec<u8>) -> (r: String)
    ensures
        r@ == pretty_hex_of(data@),
{
    pretty_hex::pretty_hex(data)
}

/// Picks the file out, failing as every command must when none was
/// given.
pub fn check_file<'a>(file: Option<&'a IHexFile>) -> (r: Result<&'a IHexFile, RunCommandErr>)
    ensures
        match r {
            Ok(f) => file == Some(f),
            Err(e) => file is None && e is FileNotProvided,
        },
{
    match file {
        Some(f) => Ok(f),
        None => Err(RunCommandErr::FileNotProvided),
    }
}

/// Runs whichever dump command was asked for, if any: a hexdump
/// renders the flat memory image as text, a binary dump yields the
/// image itself; a hexdump asked for together with a binary dump
/// wins. Returns `None` when no command was requested, and fails when
/// a command was requested without a file.
pub fn run_commands(hexdump: bool, bindump: bool, file: Option<&IHexFile>) -> (r: Result<
    Option<CommandOutput>,
    RunCommandErr,
>)
    requires
        (hexdump || bindump) ==> (file matches Some(f) ==> spec_data_addresses_fit(f.records@)),
    ensures
        match r {
            Ok(out) => match out {
                Some(CommandOutput::Hexdump(s)) => hexdump && (file matches Some(f) && s@
                    == pretty_hex_of(spec_flatten(f.records@))),
                Some(CommandOutput::Bindump(b)) => !hexdump && bindump && (file matches Some(f)
                    && b@ == spec_flatten(f.records@)),
                None => !hexdump && !bindump,
            },
            Err(e) => (hexdump || bindump) && file is None && e is FileNotProvided,
        },
{
    if hexdump {
        let f = match check_file(file) {
            Ok(f) => f,
            Err(e) => {
                return Err(e);
            },
        };
        let bytes = f.data_bytes();
        return Ok(Some(CommandOutput::Hexdump(pretty_hex_text(&bytes))));
    }

    if bindump {
        let f = match check_file(file) {
            Ok(f) => f,
            Err(e) => {
                return Err(e);
            },
        };
        return Ok(Some(CommandOutput::Bindump(f.data_bytes())));
    }

    Ok(None)
}

} // verus!
