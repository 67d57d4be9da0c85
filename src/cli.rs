use vstd::prelude::*;

use crate::wipe::WipeMode;

verus! {

/// A resolved command line.
#[derive(Clone, Debug)]
pub struct Args {
    /// File to wipe (not used by the device commands).
    pub target: Option<String>,
    pub mode: WipeMode,
    pub passes: u32,
    /// Device whose size to show.
    pub disk: Option<u32>,
    pub list_disks: bool,
    /// Protected device index, in place of detection.
    pub system_disk: Option<u32>,
    /// Interactive wipe of a whole device.
    pub wipe_disk: bool,
}

/// What a command line asks for.
#[derive(Clone, Debug)]
pub enum Command {
    WipeDisk,
    ListDisks,
    ShowDisk(u32),
    WipeFile(String),
    /// Nothing to do: show how to call the program.
    Usage,
}

/// The command that `args` asks for. The device wipe wins over the listing,
/// the listing over the size query, and that over a file wipe.
pub fn command_of(args: &Args) -> (r: Command)
    ensures
        args.wipe_disk ==> r is WipeDisk,
        !args.wipe_disk && args.list_disks ==> r is ListDisks,
        !args.wipe_disk && !args.list_disks && args.disk is Some
            ==> (r matches Command::ShowDisk(n) && Some(n) == args.disk),
        !args.wipe_disk && !args.list_disks && args.disk is None && args.target is Some
            ==> (r matches Command::WipeFile(t) && t@ == args.target->Some_0@),
        !args.wipe_disk && !args.list_disks && args.disk is None && args.target is None ==> r is Usage,
{
    if args.wipe_disk {
        Command::WipeDisk
    } else if args.list_disks {
        Command::ListDisks
    } else {
        match args.disk {
            Some(n) => Command::ShowDisk(n),
            None => match &args.target {
                Some(t) => Command::WipeFile(t.clone()),
                None => Command::Usage,
            },
        }
    }
}

/// Why a file cannot be wiped.
#[derive(Copy, Clone, Debug, PartialEq, Eq, Structural)]
pub enum TargetError {
    /// The path names no regular file.
    NotRegularFile,
    /// The file holds no byte.
    EmptyFile,
}

/// Checks a file before any write: it must be a regular file of at least one
/// byte. Returns its length.
pub fn check_file_target(is_file: bool, len: u64) -> (r: Result<u64, TargetError>)
    ensures
        r == (if !is_file {
            Err::<u64, TargetError>(TargetError::NotRegularFile)
        } else if len == 0 {
            Err(TargetError::EmptyFile)
        } else {
            Ok(len)
        }),
{
    if !is_file {
        Err(TargetError::NotRegularFile)
    } else if len == 0 {
        Err(TargetError::EmptyFile)
    } else {
        Ok(len)
    }
}

} // verus!
