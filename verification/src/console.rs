//! The command line: running programs, and what the tool is asked to do.

use vstd::prelude::*;
use vstd::string::*;
use vstd::utf8::*;

use crate::host::{
    attempt, bind, copy_texts, empty, fail, failure, outcome, prepended, replied, spec_attempt,
    words1, Chain, Log, Outcome, Pause, Reply, ReplyView, Request, RequestView, Step,
};
use crate::text::{contains_char, join, joined, pieces_of, plus, split};
use crate::usb::{
    find_device_by_name, select_usb_device, spec_find_device_by_name, spec_select_usb_device, Front,
};
use crate::vm::{
    attach_device, detach_device, save_last_vm, select_vm, show_status, spec_attach_device,
    spec_detach_device, spec_save_last_vm, spec_select_vm, spec_show_status,
};

verus! {

// ---------------------------------------------------------------------------
// Running programs
// ---------------------------------------------------------------------------

/// The text of bytes that are not UTF-8 throughout, with replacement characters
/// where they are not.
pub uninterp spec fn lossy_text(data: Seq<u8>) -> Seq<char>;

/// The text that a program prints as the given bytes.
pub open spec fn printed(data: Seq<u8>) -> Seq<char> {
    if valid_utf8(data) {
        decode_utf8(data)
    } else {
        lossy_text(data)
    }
}

/// `String::from_utf8_lossy`: of well-formed UTF-8 the text that it encodes; of
/// other bytes a text that depends on the bytes alone.
#[verifier::external_body]
fn from_utf8_lossy(data: &[u8]) -> (r: String)
    ensures
        valid_utf8(data@) ==> r@ == decode_utf8(data@),
        !valid_utf8(data@) ==> r@ == lossy_text(data@),
{
    String::from_utf8_lossy(data).into_owned()
}

/// What running a program gives: its output, or the messages of its failure.
pub open spec fn command_result(args: Seq<Seq<char>>, reply: ReplyView) -> Result<Seq<char>, Chain> {
    match reply {
        ReplyView::Exit(true, stdout, _) => Ok(printed(stdout)),
        ReplyView::Exit(false, _, stderr) => Err(
            seq!["Command failed: "@ + joined(args, " "@) + "\nError: "@ + printed(stderr)],
        ),
        ReplyView::Failed(c) => Err(
            seq!["Failed to execute command: "@ + joined(args, " "@)] + c,
        ),
        _ => Err(seq![]),
    }
}

/// What running a program gives.
fn read_result(args: &Vec<String>, reply: &Reply) -> (r: Result<String, Vec<String>>)
    ensures
        match r {
            Ok(s) => command_result(args.deep_view(), reply.deep_view()) == Ok::<Seq<char>, Chain>(
                s@,
            ),
            Err(c) => command_result(args.deep_view(), reply.deep_view()) == Err::<
                Seq<char>,
                Chain,
            >(c.deep_view()),
        },
{
    match reply {
        Reply::Exit(true, stdout, _) => Ok(from_utf8_lossy(stdout.as_slice())),
        Reply::Exit(false, _, stderr) => Err(
            words1(
                plus(
                    plus(
                        plus("Command failed: ".to_string(), join(args, " ").as_str()),
                        "\nError: ",
                    ),
                    from_utf8_lossy(stderr.as_slice()).as_str(),
                ).as_str(),
            ),
        ),
        Reply::Failed(c) => Err(
            prepended(
                plus("Failed to execute command: ".to_string(), join(args, " ").as_str()),
                copy_texts(c),
            ),
        ),
        _ => Err(empty()),
    }
}

/// Runs a program for its output.
pub open spec fn spec_run_command(log: Log, at: int, args: Seq<Seq<char>>) -> Outcome<Seq<char>> {
    if args.len() == 0 {
        failure(at, "Command arguments cannot be empty"@)
    } else {
        match replied(log, at) {
            None => Outcome::Ask(RequestView::Run(args)),
            Some(reply) => match command_result(args, reply) {
                Ok(out) => Outcome::Ready(out, at + 1),
                Err(c) => Outcome::Fail(c, at + 1),
            },
        }
    }
}

/// Runs a program for its output.
pub fn run_command(log: &Vec<Reply>, at: usize, args: Vec<String>) -> (r: Step<String>)
    ensures
        outcome(r) == spec_run_command(log.deep_view(), at as int, args.deep_view()),
{
    if args.len() == 0 {
        return fail(at, "Command arguments cannot be empty");
    }
    if at < log.len() {
        match read_result(&args, &log[at]) {
            Ok(out) => Ok((out, at + 1)),
            Err(c) => Err(Pause::Fail(c, at + 1)),
        }
    } else {
        Err(Pause::Ask(Request::Run(args)))
    }
}

// ---------------------------------------------------------------------------
// What the tool is asked to do
// ---------------------------------------------------------------------------

/// What to do with a device.
#[derive(Debug, Clone, Copy, PartialEq, Eq, Structural)]
pub enum Commands {
    /// Attach it to the virtual machine.
    Attach,
    /// Detach it from the virtual machine.
    Detach,
    /// Tell of it and of the virtual machine.
    Status,
}

/// What the user asks for: a command, and the virtual machine and the device
/// that it is about, where they are given.
#[derive(Debug)]
pub struct Cli {
    pub vm: Option<String>,
    pub device: Option<String>,
    pub command: Commands,
}

/// What the user asks for.
pub struct CliView {
    pub vm: Option<Seq<char>>,
    pub device: Option<Seq<char>>,
    pub command: Commands,
}

impl DeepView for Cli {
    type V = CliView;

    open spec fn deep_view(&self) -> CliView {
        CliView {
            vm: self.vm.deep_view(),
            device: self.device.deep_view(),
            command: self.command,
        }
    }
}

/// The virtual machine that is given, or else the one that the user selects.
pub open spec fn spec_choose_vm(log: Log, at: int, vm: Option<Seq<char>>) -> Outcome<Seq<char>> {
    match vm {
        Some(vm) => Outcome::Ready(vm, at),
        None => spec_select_vm(log, at),
    }
}

/// The virtual machine that is given, or else the one that the user selects.
pub fn choose_vm(log: &Vec<Reply>, at: usize, vm: &Option<String>) -> (r: Step<String>)
    ensures
        outcome(r) == spec_choose_vm(log.deep_view(), at as int, vm.deep_view()),
{
    match vm {
        Some(vm) => Ok((vm.clone(), at)),
        None => select_vm(log, at),
    }
}

/// The ids of the device that is meant: those given, those of the device with
/// the given name, or else those of the one that the user selects. For
/// detaching, only attached devices count.
pub open spec fn spec_resolve_ids(
    log: Log,
    at: int,
    vm: Seq<char>,
    device: Option<Seq<char>>,
    filter_attached: bool,
) -> Outcome<(Seq<char>, Seq<char>)> {
    match device {
        Some(spec) => if spec.contains(':') {
            let parts = pieces_of(spec, ':');
            if parts.len() == 2 && parts[0].len() > 0 && parts[1].len() > 0 {
                Outcome::Ready((parts[0], parts[1]), at)
            } else {
                failure(
                    at,
                    "Invalid device ID format. Expected format: vendor:product (e.g., 0dd4:4105) or device name"@,
                )
            }
        } else {
            spec_find_device_by_name(Front::Console, log, at, spec, Some(vm), filter_attached)
        },
        None => spec_select_usb_device(log, at, Some(vm), filter_attached),
    }
}

fn resolve_ids(
    log: &Vec<Reply>,
    at: usize,
    vm: &str,
    device: &Option<String>,
    filter_attached: bool,
) -> (r: Step<(String, String)>)
    ensures
        outcome(r) == spec_resolve_ids(
            log.deep_view(),
            at as int,
            vm@,
            device.deep_view(),
            filter_attached,
        ),
{
    match device {
        Some(spec) => {
            if contains_char(spec.as_str(), ':') {
                let parts = split(spec.as_str(), ':');
                if parts.len() == 2 {
                    assert(parts.deep_view()[0] == parts@[0]@ && parts.deep_view()[1]
                        == parts@[1]@);
                    if parts[0].unicode_len() > 0 && parts[1].unicode_len() > 0 {
                        return Ok(((parts[0].to_string(), parts[1].to_string()), at));
                    }
                }
                return fail(
                    at,
                    "Invalid device ID format. Expected format: vendor:product (e.g., 0dd4:4105) or device name",
                );
            }
            find_device_by_name(
                Front::Console,
                log,
                at,
                spec.as_str(),
                Some(vm),
                filter_attached,
            )
        },
        None => select_usb_device(log, at, Some(vm), filter_attached),
    }
}

/// Does what is asked with a device of the host.
pub open spec fn spec_run(log: Log, at: int, cli: CliView) -> Outcome<()> {
    bind(
        spec_choose_vm(log, at, cli.vm),
        |vm: Seq<char>, at: int|
            bind(
                spec_attempt(spec_save_last_vm(log, at, vm)),
                |_saved: Option<()>, at: int|
                    bind(
                        spec_resolve_ids(
                            log,
                            at,
                            vm,
                            cli.device,
                            cli.command == Commands::Detach,
                        ),
                        |ids: (Seq<char>, Seq<char>), at: int|
                            spec_treat_device(
                                Front::Console,
                                log,
                                at,
                                cli.command,
                                vm,
                                ids.0,
                                ids.1,
                            ),
                    ),
            ),
    )
}

/// Attaches, detaches or tells of a device of the host.
pub open spec fn spec_treat_device(
    front: Front,
    log: Log,
    at: int,
    command: Commands,
    vm: Seq<char>,
    vendor_id: Seq<char>,
    product_id: Seq<char>,
) -> Outcome<()> {
    match command {
        Commands::Attach => spec_attach_device(front, log, at, vm, vendor_id, product_id),
        Commands::Detach => spec_detach_device(front, log, at, vm, vendor_id, product_id),
        Commands::Status => spec_show_status(front, log, at, vm, vendor_id, product_id),
    }
}

/// Attaches, detaches or tells of a device of the host.
pub fn treat_device(
    front: Front,
    log: &Vec<Reply>,
    at: usize,
    command: Commands,
    vm: &str,
    vendor_id: &str,
    product_id: &str,
) -> (r: Step<()>)
    ensures
        outcome(r) == spec_treat_device(
            front,
            log.deep_view(),
            at as int,
            command,
            vm@,
            vendor_id@,
            product_id@,
        ),
{
    match command {
        Commands::Attach => attach_device(front, log, at, vm, vendor_id, product_id),
        Commands::Detach => detach_device(front, log, at, vm, vendor_id, product_id),
        Commands::Status => show_status(front, log, at, vm, vendor_id, product_id),
    }
}

/// Does what is asked with a device of the host.
pub fn run(log: &Vec<Reply>, at: usize, cli: &Cli) -> (r: Step<()>)
    ensures
        outcome(r) == spec_run(log.deep_view(), at as int, cli.deep_view()),
{
    let (vm, at) = choose_vm(log, at, &cli.vm)?;
    let (_, at) = attempt(save_last_vm(log, at, vm.as_str()))?;
    let filter_attached = cli.command == Commands::Detach;
    let (ids, at) = resolve_ids(log, at, vm.as_str(), &cli.device, filter_attached)?;
    treat_device(
        Front::Console,
        log,
        at,
        cli.command,
        vm.as_str(),
        ids.0.as_str(),
        ids.1.as_str(),
    )
}

} // verus!
