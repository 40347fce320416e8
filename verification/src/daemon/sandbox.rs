//! What the daemon confines itself to once it is up: the files it may touch, and the system calls it
//! may make.
use seccompiler::{BpfProgram, SeccompAction, SeccompFilter, TargetArch};
use vstd::prelude::*;
use vstd::string::*;

#[allow(unused_imports)]
use crate::text::dec;
use crate::text::push_dec;

verus! {

/// What may be done beneath a path.
#[derive(Clone, Copy, Debug, PartialEq, Eq, Structural)]
pub struct Access {
    pub read_file: bool,
    pub write_file: bool,
    pub read_dir: bool,
    pub remove_file: bool,
    pub make_reg: bool,
    pub make_dir: bool,
}

/// Only reading files.
pub open spec fn reads() -> Access {
    Access {
        read_file: true,
        write_file: false,
        read_dir: false,
        remove_file: false,
        make_reg: false,
        make_dir: false,
    }
}

/// Reading files and directories.
pub open spec fn browses() -> Access {
    Access { read_dir: true, ..reads() }
}

/// A path, and what may be done beneath it.
#[derive(Debug)]
pub struct PathRule {
    pub path: String,
    pub access: Access,
}

/// The characters of a rule.
pub open spec fn rule_view(r: PathRule) -> (Seq<char>, Access) {
    (r.path@, r.access)
}

/// What the rules depend on.
pub struct Surroundings<'a> {
    pub card: u32,
    pub runtime_dir: &'a str,
    /// The directory of the log, or the nearest above it that exists.
    pub log_dir: Option<&'a str>,
    /// The directory that the daemon was started in.
    pub cwd: Option<&'a str>,
    /// The directory above that one.
    pub cwd_parent: Option<&'a str>,
    /// Which of the directories of the system exist, in the order of [`system_dir`].
    pub system_dirs: [bool; 6],
}

/// A directory of the system.
pub open spec fn system_dir(i: int) -> Seq<char> {
    if i == 0 {
        "/etc"@
    } else if i == 1 {
        "/usr"@
    } else if i == 2 {
        "/lib"@
    } else if i == 3 {
        "/lib64"@
    } else if i == 4 {
        "/proc/self"@
    } else {
        "/tmp"@
    }
}

fn system_dir_text(i: usize) -> (s: &'static str)
    requires
        i < 6,
    ensures
        s@ == system_dir(i as int),
{
    if i == 0 {
        "/etc"
    } else if i == 1 {
        "/usr"
    } else if i == 2 {
        "/lib"
    } else if i == 3 {
        "/lib64"
    } else if i == 4 {
        "/proc/self"
    } else {
        "/tmp"
    }
}

/// A rule for a path, if there is one.
pub open spec fn rule_for(path: Option<&str>, access: Access) -> Seq<(Seq<char>, Access)> {
    match path {
        Some(p) => seq![(p@, access)],
        None => seq![],
    }
}

/// The rules for the first `n` directories of the system.
pub open spec fn system_rules(exists: Seq<bool>, n: nat) -> Seq<(Seq<char>, Access)>
    decreases n,
{
    if n == 0 {
        seq![]
    } else {
        system_rules(exists, (n - 1) as nat) + if exists[n - 1] {
            seq![(system_dir(n - 1), browses())]
        } else {
            seq![]
        }
    }
}

/// What a log needs.
pub open spec fn log_access() -> Access {
    Access { write_file: true, make_reg: true, ..browses() }
}

/// The files that the daemon may touch: its device, randomness, its own directory and its log; and
/// to read, where it was started, what lies beside that, and the system.
pub open spec fn path_rules(s: Surroundings) -> Seq<(Seq<char>, Access)> {
    seq![
        ("/dev/tenstorrent/"@ + dec(s.card as nat), Access { write_file: true, ..reads() }),
        ("/dev/urandom"@, reads()),
        (
            s.runtime_dir@,
            Access {
                write_file: true,
                remove_file: true,
                make_reg: true,
                make_dir: true,
                ..browses()
            },
        ),
    ] + rule_for(s.log_dir, log_access()) + rule_for(s.cwd, browses()) + rule_for(
        s.cwd_parent,
        browses(),
    ) + system_rules(s.system_dirs@, 6)
}

fn push_rule(rules: &mut Vec<PathRule>, path: Option<&str>, access: Access)
    ensures
        final(rules)@.map_values(|r: PathRule| rule_view(r)) == old(rules)@.map_values(
            |r: PathRule| rule_view(r),
        ) + rule_for(path, access),
{
    match path {
        Some(p) => {
            rules.push(PathRule { path: p.to_owned(), access });
        },
        None => {},
    }
    assert(rules@.map_values(|r: PathRule| rule_view(r)) =~= old(rules)@.map_values(
        |r: PathRule| rule_view(r),
    ) + rule_for(path, access));
}

/// The rules for the files that the daemon may touch.
pub fn apply_landlock(s: &Surroundings) -> (rules: Vec<PathRule>)
    ensures
        rules@.map_values(|r: PathRule| rule_view(r)) == path_rules(*s),
{
    let mut device: String = "/dev/tenstorrent/".to_owned();
    push_dec(&mut device, s.card as u64);
    let read: Access = Access {
        read_file: true,
        write_file: false,
        read_dir: false,
        remove_file: false,
        make_reg: false,
        make_dir: false,
    };
    let browse: Access = Access { read_dir: true, ..read };
    let mut rules: Vec<PathRule> = Vec::new();
    assert(rules@.map_values(|r: PathRule| rule_view(r)) =~= seq![]);
    push_rule(&mut rules, Some(device.as_str()), Access { write_file: true, ..read });
    push_rule(&mut rules, Some("/dev/urandom"), read);
    push_rule(
        &mut rules,
        Some(s.runtime_dir),
        Access { write_file: true, remove_file: true, make_reg: true, make_dir: true, ..browse },
    );
    push_rule(&mut rules, s.log_dir, Access { write_file: true, make_reg: true, ..browse });
    push_rule(&mut rules, s.cwd, browse);
    push_rule(&mut rules, s.cwd_parent, browse);
    let ghost head = rules@.map_values(|r: PathRule| rule_view(r));
    assert(head + system_rules(s.system_dirs@, 0) =~= head);
    let mut i: usize = 0;
    while i < 6
        invariant
            i <= 6,
            browse == browses(),
            rules@.map_values(|r: PathRule| rule_view(r)) == head + system_rules(
                s.system_dirs@,
                i as nat,
            ),
        decreases 6 - i,
    {
        let dir: Option<&str> = if s.system_dirs[i] {
            Some(system_dir_text(i))
        } else {
            None
        };
        let ghost before = rules@.map_values(|r: PathRule| rule_view(r));
        push_rule(&mut rules, dir, browse);
        i = i + 1;
        assert(rules@.map_values(|r: PathRule| rule_view(r)) =~= head + system_rules(
            s.system_dirs@,
            i as nat,
        ));
    }
    assert(rules@.map_values(|r: PathRule| rule_view(r)) =~= path_rules(*s));
    rules
}

/// How much of the rules the kernel enforces.
#[derive(Clone, Copy, Debug, PartialEq, Eq, Structural)]
pub enum Enforcement {
    Full,
    /// The kernel is older than the rules.
    Partial,
    Missing,
}

impl Enforcement {
    /// The number that the daemon reports.
    pub fn status(self) -> (n: i64)
        ensures
            n == match self {
                Enforcement::Full => 2int,
                Enforcement::Partial => 1,
                Enforcement::Missing => 0,
            },
    {
        match self {
            Enforcement::Full => 2,
            Enforcement::Partial => 1,
            Enforcement::Missing => 0,
        }
    }
}

/// Whether the daemon goes on with what the kernel enforces.
pub fn accept_enforcement(e: Enforcement) -> (r: std::result::Result<(), String>)
    ensures
        r is Ok <==> e != Enforcement::Missing,
        r matches Err(m) ==> m@ == "landlock not enforced (no kernel support)"@,
{
    match e {
        Enforcement::Missing => Err("landlock not enforced (no kernel support)".to_owned()),
        _ => Ok(()),
    }
}

/// System calls that the daemon makes, and some that it does not.
#[derive(Clone, Copy, Debug, PartialEq, Eq, Structural)]
pub enum Syscall {
    Read,
    Write,
    Pread64,
    Pwrite64,
    Close,
    Fcntl,
    Lseek,
    Fstat,
    Statx,
    Flock,
    Ftruncate,
    Pipe2,
    Socketpair,
    Openat,
    Getcwd,
    Access,
    Faccessat,
    Readlink,
    Readlinkat,
    Getdents64,
    Mmap,
    Munmap,
    Mprotect,
    Mremap,
    Madvise,
    Brk,
    Clone3,
    Futex,
    SetRobustList,
    Rseq,
    Getpid,
    Gettid,
    Tgkill,
    Exit,
    ExitGroup,
    SchedGetaffinity,
    SchedYield,
    Getrandom,
    ClockGettime,
    ClockNanosleep,
    Nanosleep,
    Pselect6,
    Poll,
    Ppoll,
    EpollPwait,
    EpollWait,
    EpollCreate1,
    EpollCtl,
    Socket,
    Bind,
    Listen,
    Accept4,
    Getsockname,
    Getsockopt,
    Setsockopt,
    Recvfrom,
    Recvmsg,
    Sendto,
    Sendmsg,
    Shutdown,
    Ioctl,
    RtSigaction,
    RtSigprocmask,
    RtSigreturn,
    Sigaltstack,
    Prctl,
    Connect,
    Fork,
    Vfork,
    Clone,
    Execve,
    Execveat,
    Bpf,
    Ptrace,
}

/// The system calls that the daemon may make.
pub open spec fn allowed() -> Seq<Syscall> {
    seq![
        Syscall::Read,
        Syscall::Write,
        Syscall::Pread64,
        Syscall::Pwrite64,
        Syscall::Close,
        Syscall::Fcntl,
        Syscall::Lseek,
        Syscall::Fstat,
        Syscall::Statx,
        Syscall::Flock,
        Syscall::Ftruncate,
        Syscall::Pipe2,
        Syscall::Socketpair,
        Syscall::Openat,
        Syscall::Getcwd,
        Syscall::Access,
        Syscall::Faccessat,
        Syscall::Readlink,
        Syscall::Readlinkat,
        Syscall::Getdents64,
        Syscall::Mmap,
        Syscall::Munmap,
        Syscall::Mprotect,
        Syscall::Mremap,
        Syscall::Madvise,
        Syscall::Brk,
        Syscall::Clone3,
        Syscall::Futex,
        Syscall::SetRobustList,
        Syscall::Rseq,
        Syscall::Getpid,
        Syscall::Gettid,
        Syscall::Tgkill,
        Syscall::Exit,
        Syscall::ExitGroup,
        Syscall::SchedGetaffinity,
        Syscall::SchedYield,
        Syscall::Getrandom,
        Syscall::ClockGettime,
        Syscall::ClockNanosleep,
        Syscall::Nanosleep,
        Syscall::Pselect6,
        Syscall::Poll,
        Syscall::Ppoll,
        Syscall::EpollPwait,
        Syscall::EpollWait,
        Syscall::EpollCreate1,
        Syscall::EpollCtl,
        Syscall::Socket,
        Syscall::Bind,
        Syscall::Listen,
        Syscall::Accept4,
        Syscall::Getsockname,
        Syscall::Getsockopt,
        Syscall::Setsockopt,
        Syscall::Recvfrom,
        Syscall::Recvmsg,
        Syscall::Sendto,
        Syscall::Sendmsg,
        Syscall::Shutdown,
        Syscall::Ioctl,
        Syscall::RtSigaction,
        Syscall::RtSigprocmask,
        Syscall::RtSigreturn,
        Syscall::Sigaltstack,
        Syscall::Prctl,
    ]
}

/// The system calls that the daemon may make; any other fails with a lack of permission.
pub fn apply_seccomp() -> (list: Vec<Syscall>)
    ensures
        list@ == allowed(),
{
    let list: Vec<Syscall> = vec![
        Syscall::Read,
        Syscall::Write,
        Syscall::Pread64,
        Syscall::Pwrite64,
        Syscall::Close,
        Syscall::Fcntl,
        Syscall::Lseek,
        Syscall::Fstat,
        Syscall::Statx,
        Syscall::Flock,
        Syscall::Ftruncate,
        Syscall::Pipe2,
        Syscall::Socketpair,
        Syscall::Openat,
        Syscall::Getcwd,
        Syscall::Access,
        Syscall::Faccessat,
        Syscall::Readlink,
        Syscall::Readlinkat,
        Syscall::Getdents64,
        Syscall::Mmap,
        Syscall::Munmap,
        Syscall::Mprotect,
        Syscall::Mremap,
        Syscall::Madvise,
        Syscall::Brk,
        Syscall::Clone3,
        Syscall::Futex,
        Syscall::SetRobustList,
        Syscall::Rseq,
        Syscall::Getpid,
        Syscall::Gettid,
        Syscall::Tgkill,
        Syscall::Exit,
        Syscall::ExitGroup,
        Syscall::SchedGetaffinity,
        Syscall::SchedYield,
        Syscall::Getrandom,
        Syscall::ClockGettime,
        Syscall::ClockNanosleep,
        Syscall::Nanosleep,
        Syscall::Pselect6,
        Syscall::Poll,
        Syscall::Ppoll,
        Syscall::EpollPwait,
        Syscall::EpollWait,
        Syscall::EpollCreate1,
        Syscall::EpollCtl,
        Syscall::Socket,
        Syscall::Bind,
        Syscall::Listen,
        Syscall::Accept4,
        Syscall::Getsockname,
        Syscall::Getsockopt,
        Syscall::Setsockopt,
        Syscall::Recvfrom,
        Syscall::Recvmsg,
        Syscall::Sendto,
        Syscall::Sendmsg,
        Syscall::Shutdown,
        Syscall::Ioctl,
        Syscall::RtSigaction,
        Syscall::RtSigprocmask,
        Syscall::RtSigreturn,
        Syscall::Sigaltstack,
        Syscall::Prctl,
    ];
    assert(list@ =~= allowed());
    list
}

/// The error that a system call fails with that is not on the list: a lack of permission.
pub const EPERM: u32 = 1;

/// An instruction of a filter: its code, where it goes on if its test holds and if not, and its
/// operand.
pub type Instruction = (u16, u8, u8, u32);

/// The program that `seccompiler` compiles for x86-64: it lets the system calls with these numbers
/// pass, and answers any other with an error of this number.
pub uninterp spec fn bpf_program(numbers: Seq<i64>, errno: u32) -> Seq<(u16, u8, u8, u32)>;

/// How long such a program is where there is a number: each takes five instructions, and so does all
/// the rest. Without any number the rest is one instruction shorter.
pub open spec fn program_len(numbers: Seq<i64>) -> nat {
    5 * numbers.to_set().len() + 5
}

/// Calls `SeccompFilter::new`, without any condition on the arguments of a system call, and
/// compiles the filter with `BpfProgram::try_from`.
///
/// What comes out is named by [`bpf_program`]; it depends on nothing but the numbers, in whatever
/// order, and the error. The two fail in one case only: a program of 4096 instructions or more is
/// refused, and the refusal prints as `FilterTooLarge` with the length. A number that is no `u32`
/// would make the second one panic.
#[verifier::external_body]
fn compile(numbers: &[i64], errno: u32) -> (r: std::result::Result<Vec<Instruction>, String>)
    requires
        forall|i: int| 0 <= i < numbers@.len() ==> 0 <= #[trigger] numbers@[i] <= u32::MAX,
    ensures
        r is Ok <==> program_len(numbers@) < 4096,
        r matches Ok(p) ==> p@ == bpf_program(numbers@, errno),
        r matches Err(t) ==> t@ == "FilterTooLarge("@ + dec(program_len(numbers@)) + ")"@,
{
    let rules = numbers.iter().map(|n| (*n, Vec::new())).collect();
    let refuse = SeccompAction::Errno(errno);
    SeccompFilter::new(rules, refuse, SeccompAction::Allow, TargetArch::x86_64)
        .and_then(BpfProgram::try_from)
        .map(|p| p.into_iter().map(|i| (i.code, i.jt, i.jf, i.k)).collect())
        .map_err(|e| format!("{:?}", e))
}

/// The filter for the kernel: the system calls with these numbers pass, any other fails for lack of
/// permission.
pub fn seccomp_program(numbers: &[i64]) -> (r: std::result::Result<Vec<Instruction>, String>)
    requires
        forall|i: int| 0 <= i < numbers@.len() ==> 0 <= #[trigger] numbers@[i] <= u32::MAX,
    ensures
        r is Ok <==> program_len(numbers@) < 4096,
        r matches Ok(p) ==> p@ == bpf_program(numbers@, EPERM),
        r matches Err(m) ==> m@ == "seccomp filter compile: FilterTooLarge("@ + dec(
            program_len(numbers@),
        ) + ")"@,
{
    match compile(numbers, EPERM) {
        Ok(p) => Ok(p),
        Err(e) => {
            let mut m: String = "seccomp filter compile: ".to_owned();
            m.append(e.as_str());
            proof {
                reveal_strlit("seccomp filter compile: ");
                reveal_strlit("FilterTooLarge(");
                reveal_strlit("seccomp filter compile: FilterTooLarge(");
            }
            assert(m@ =~= "seccomp filter compile: FilterTooLarge("@ + dec(program_len(numbers@))
                + ")"@);
            Err(m)
        },
    }
}

/// Whatever the numbers of the system calls are, there is a filter for the list of the daemon.
pub proof fn the_list_fits_a_filter(numbers: Seq<i64>)
    requires
        numbers.len() == allowed().len(),
    ensures
        program_len(numbers) < 4096,
{
    numbers.lemma_cardinality_of_set();
}

/// A step of confining the daemon.
#[derive(Clone, Copy, Debug, PartialEq, Eq, Structural)]
pub enum SandboxStep {
    Files,
    Syscalls,
}

/// The order in which the daemon confines itself: the system calls come last, since they rule out
/// confining the files.
pub fn apply() -> (steps: [SandboxStep; 2])
    ensures
        steps@ =~= seq![SandboxStep::Files, SandboxStep::Syscalls],
{
    [SandboxStep::Files, SandboxStep::Syscalls]
}

/// The daemon can neither open a connection, nor start another program, nor look into one.
pub proof fn nothing_leaves_the_sandbox()
    ensures
        !allowed().contains(Syscall::Connect),
        !allowed().contains(Syscall::Fork),
        !allowed().contains(Syscall::Vfork),
        !allowed().contains(Syscall::Clone),
        !allowed().contains(Syscall::Execve),
        !allowed().contains(Syscall::Execveat),
        !allowed().contains(Syscall::Bpf),
        !allowed().contains(Syscall::Ptrace),
{
}

/// What lies outside of the daemon's own directory, its log and its device can at most be read.
pub proof fn the_rest_is_read_only(s: Surroundings, i: int)
    requires
        0 <= i < path_rules(s).len(),
        path_rules(s)[i].1.write_file || path_rules(s)[i].1.remove_file
            || path_rules(s)[i].1.make_reg || path_rules(s)[i].1.make_dir,
    ensures
        path_rules(s)[i].0 == "/dev/tenstorrent/"@ + dec(s.card as nat) || path_rules(s)[i].0
            == s.runtime_dir@ || (s.log_dir matches Some(d) && path_rules(s)[i].0 == d@),
{
    lemma_system_rules_only_read(s.system_dirs@, 6);
    let head = 3 + rule_for(s.log_dir, log_access()).len() + rule_for(s.cwd, browses()).len()
        + rule_for(s.cwd_parent, browses()).len();
    if i >= head {
        assert(path_rules(s)[i] == system_rules(s.system_dirs@, 6)[i - head]);
    }
}

proof fn lemma_system_rules_only_read(exists: Seq<bool>, n: nat)
    ensures
        forall|i: int|
            0 <= i < system_rules(exists, n).len() ==> (#[trigger] system_rules(exists, n)[i]).1
                == browses(),
    decreases n,
{
    if n > 0 {
        let before = system_rules(exists, (n - 1) as nat);
        lemma_system_rules_only_read(exists, (n - 1) as nat);
        assert forall|i: int| 0 <= i < system_rules(exists, n).len() implies (
        #[trigger] system_rules(exists, n)[i]).1 == browses() by {
            if i < before.len() {
                assert(before[i].1 == browses());
            }
        }
    }
}

} // verus!
