//! What the model is told of the machine.
use crate::display::opt_str;
use crate::text::{copy_text, join, joined, lines, lines_of, trim, trimmed, views};
use vstd::prelude::*;

verus! {

/// The package managers that are asked for their version.
pub const PROBES: usize = 4;

/// The command of a package manager.
pub open spec fn probe_command_of(i: int) -> Seq<char> {
    if i == 0 {
        "apt"@
    } else if i == 1 {
        "dnf"@
    } else if i == 2 {
        "pacman"@
    } else {
        "zypper"@
    }
}

/// The name that a package manager is told under.
pub open spec fn probe_label_of(i: int) -> Seq<char> {
    if i == 0 {
        "APT"@
    } else if i == 1 {
        "DNF"@
    } else if i == 2 {
        "Pacman"@
    } else {
        "Zypper"@
    }
}

/// The command of a package manager, which is called with `--version`.
pub fn probe_command(i: usize) -> (r: &'static str)
    requires
        i < PROBES,
    ensures
        r@ == probe_command_of(i as int),
{
    if i == 0 {
        "apt"
    } else if i == 1 {
        "dnf"
    } else if i == 2 {
        "pacman"
    } else {
        "zypper"
    }
}

fn probe_label(i: usize) -> (r: &'static str)
    ensures
        r@ == probe_label_of(i as int),
{
    if i == 0 {
        "APT"
    } else if i == 1 {
        "DNF"
    } else if i == 2 {
        "Pacman"
    } else {
        "Zypper"
    }
}

/// The lines for the first `n` package managers: the first line of each answer. One that is not there
/// or says nothing has none.
pub open spec fn probe_lines(answers: Seq<Option<String>>, n: int) -> Seq<Seq<char>>
    decreases n,
{
    if n <= 0 {
        Seq::empty()
    } else {
        let before = probe_lines(answers, n - 1);
        match answers[n - 1] {
            Some(a) => if lines_of(a@).len() > 0 {
                before.push(probe_label_of(n - 1) + ": "@ + lines_of(a@)[0])
            } else {
                before
            },
            None => before,
        }
    }
}

/// What is told of the package managers. The answers stand in the order of the commands; an absent one
/// is that of a manager that is not there.
pub fn basic_env_info(answers: &Vec<Option<String>>) -> (r: String)
    ensures
        r@ == joined(probe_lines(answers@, answers@.len() as int), "\n"@),
{
    let mut parts: Vec<String> = Vec::new();
    assert(views(parts@) =~= Seq::empty());
    let mut i: usize = 0;
    while i < answers.len()
        invariant
            i <= answers@.len(),
            views(parts@) == probe_lines(answers@, i as int),
        decreases answers.len() - i,
    {
        match &answers[i] {
            Some(a) => {
                let ls = lines(a.as_str());
                assert(views(ls@).len() == ls@.len());
                if ls.len() > 0 {
                    let mut part = copy_text(probe_label(i));
                    part.append(": ");
                    part.append(ls[0].as_str());
                    assert(views(ls@)[0] == ls@[0]@);
                    let ghost text = part@;
                    let ghost before = views(parts@);
                    parts.push(part);
                    assert(views(parts@) =~= before.push(text));
                }
            },
            None => {},
        }
        i += 1;
    }
    join(&parts, "\n")
}

/// The operating system on one line.
pub fn os_info(name: Option<&str>, version: Option<&str>, arch: &str) -> (r: String)
    ensures
        r@ == (match opt_str(name) {
            Some(n) => n,
            None => Seq::empty(),
        }) + " "@ + (match opt_str(version) {
            Some(v) => v,
            None => Seq::empty(),
        }) + " ("@ + arch@ + ")"@,
{
    let mut out = String::new();
    match name {
        Some(n) => out.append(n),
        None => {},
    }
    assert(out@ =~= (match opt_str(name) {
        Some(n) => n,
        None => Seq::empty(),
    }));
    out.append(" ");
    let ghost before = out@;
    match version {
        Some(v) => out.append(v),
        None => {},
    }
    assert(out@ =~= before + (match opt_str(version) {
        Some(v) => v,
        None => Seq::empty(),
    }));
    out.append(" (");
    out.append(arch);
    out.append(")");
    out
}

/// The kernel on one line: what the system says of itself, without white space around it.
pub fn uname_info(answer: Option<&str>) -> (r: String)
    ensures
        r@ == (match opt_str(answer) {
            Some(a) => trimmed(a),
            None => "unknown"@,
        }),
{
    match answer {
        Some(a) => trim(a),
        None => copy_text("unknown"),
    }
}

/// The name of the user: from the one variable, else from the other, else a word for anybody.
pub fn whoami(user: Option<&str>, username: Option<&str>) -> (r: String)
    ensures
        r@ == (match opt_str(user) {
            Some(u) => u,
            None => match opt_str(username) {
                Some(u) => u,
                None => "user"@,
            },
        }),
{
    match user {
        Some(u) => copy_text(u),
        None => match username {
            Some(u) => copy_text(u),
            None => copy_text("user"),
        },
    }
}

/// The package managers that are asked, and the names that they are told under.
pub proof fn law_package_managers()
    ensures
        PROBES == 4,
        probe_command_of(0) == "apt"@ && probe_label_of(0) == "APT"@,
        probe_command_of(1) == "dnf"@ && probe_label_of(1) == "DNF"@,
        probe_command_of(2) == "pacman"@ && probe_label_of(2) == "Pacman"@,
        probe_command_of(3) == "zypper"@ && probe_label_of(3) == "Zypper"@,
{
}

proof fn lemma_probes_in_order(answers: Seq<Option<String>>, n: int) -> (at: Seq<int>)
    requires
        0 <= n <= answers.len(),
    ensures
        at.len() == probe_lines(answers, n).len(),
        forall|k: int|
            0 <= k < at.len() ==> 0 <= #[trigger] at[k] < n
                && (answers[at[k]] is Some && lines_of(answers[at[k]]->0@).len() > 0)
                && probe_lines(answers, n)[k]
                == probe_label_of(at[k]) + ": "@ + lines_of(answers[at[k]]->0@)[0],
        forall|j: int, k: int| 0 <= j < k < at.len() ==> #[trigger] at[j] < #[trigger] at[k],
        forall|i: int| 0 <= i < n && ((#[trigger] answers[i]) is Some
            && lines_of(answers[i]->0@).len() > 0) ==> at.contains(i),
    decreases n,
{
    if n == 0 {
        Seq::empty()
    } else {
        let before = lemma_probes_in_order(answers, n - 1);
        let at = if answers[n - 1] is Some && lines_of(answers[n - 1]->0@).len() > 0 {
            before.push(n - 1)
        } else {
            before
        };
        assert forall|k: int| 0 <= k < at.len() implies 0 <= #[trigger] at[k] < n
            && (answers[at[k]] is Some && lines_of(answers[at[k]]->0@).len() > 0)
            && probe_lines(answers, n)[k] == probe_label_of(at[k]) + ": "@
                + lines_of(answers[at[k]]->0@)[0] by {
            if k < before.len() {
                assert(at[k] == before[k]);
            }
        }
        assert forall|j: int, k: int| 0 <= j < k < at.len() implies #[trigger] at[j]
            < #[trigger] at[k] by {
            assert(at[j] == before[j]);
            if k < before.len() {
                assert(at[k] == before[k]);
            }
        }
        assert forall|i: int| 0 <= i < n
            && ((#[trigger] answers[i]) is Some && lines_of(answers[i]->0@).len() > 0)
            implies at.contains(i) by {
            if i < n - 1 {
                assert(before.contains(i));
                let k = choose|k: int| 0 <= k < before.len() && before[k] == i;
                assert(at[k] == i);
            } else {
                assert(at[before.len() as int] == i);
            }
        }
        at
    }
}

/// Every package manager that answers with at least one line is told, in the order of the managers and
/// with the first line of its answer; one that is not there or says nothing is not.
pub proof fn law_every_answer_is_told(answers: Seq<Option<String>>) -> (at: Seq<int>)
    ensures
        at.len() == probe_lines(answers, answers.len() as int).len(),
        forall|k: int|
            0 <= k < at.len() ==> 0 <= #[trigger] at[k] < answers.len() && answers[at[k]] is Some
                && lines_of(answers[at[k]]->0@).len() > 0 && probe_lines(
                answers,
                answers.len() as int,
            )[k] == probe_label_of(at[k]) + ": "@ + lines_of(answers[at[k]]->0@)[0],
        forall|j: int, k: int| 0 <= j < k < at.len() ==> #[trigger] at[j] < #[trigger] at[k],
        forall|i: int|
            0 <= i < answers.len() && (#[trigger] answers[i]) is Some && lines_of(
                answers[i]->0@,
            ).len() > 0 ==> at.contains(i),
{
    lemma_probes_in_order(answers, answers.len() as int)
}

} // verus!
