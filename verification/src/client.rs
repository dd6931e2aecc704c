//! What the command-line client prints for the replies it receives.
use vstd::prelude::*;
use vstd::string::*;
use crate::ipc::{IpcResponse, IpcResponseView};
use crate::text::{padded, pad_right};

verus! {

/// The width of the name column in the `status` listing.
pub open spec fn name_column() -> nat {
    20
}

/// The lines `status` prints for a reply: a note where no program is
/// configured, otherwise one line per program, its name padded to the name
/// column, a blank, and its description.
pub open spec fn status_output(r: IpcResponseView) -> Seq<Seq<char>> {
    match r {
        IpcResponseView::StatusData(d) => if d.len() == 0 {
            seq!["No processes configured."@]
        } else {
            d.map_values(|e: (Seq<char>, Seq<char>)| padded(e.0, name_column()) + " "@ + e.1)
        },
        IpcResponseView::Error(e) => seq!["Error: "@ + e],
        IpcResponseView::Accepted => seq!["Unexpected response"@],
    }
}

/// The line printed for the reply to `start` (with `done` = `"Started "`) or
/// `stop` (with `done` = `"Stopped "`) of `target`.
pub open spec fn control_output(done: Seq<char>, target: Seq<char>, r: IpcResponseView) -> Seq<char> {
    match r {
        IpcResponseView::Accepted => done + target,
        IpcResponseView::Error(e) => "Error: "@ + e,
        IpcResponseView::StatusData(_) => "Unexpected response"@,
    }
}

/// The lines that `status` prints for `resp`.
pub fn status_lines(resp: &IpcResponse) -> (lines: Vec<String>)
    ensures
        lines@.map_values(|s: String| s@) == status_output(resp@),
{
    let mut lines: Vec<String> = Vec::new();
    match resp {
        IpcResponse::StatusData(data) => {
            let n = data.len();
            if n == 0 {
                lines.push(String::from_str("No processes configured."));
                assert(lines@.map_values(|s: String| s@) =~= status_output(resp@));
                return lines;
            }
            let ghost d = data@.map_values(|e: (String, String)| (e.0@, e.1@));
            let ghost f = |e: (Seq<char>, Seq<char>)| padded(e.0, name_column()) + " "@ + e.1;
            let mut i: usize = 0;
            while i < n
                invariant
                    n == data@.len(),
                    d == data@.map_values(|e: (String, String)| (e.0@, e.1@)),
                    f == (|e: (Seq<char>, Seq<char>)| padded(e.0, name_column()) + " "@ + e.1),
                    i <= n,
                    lines@.len() == i,
                    lines@.map_values(|s: String| s@) =~= d.take(i as int).map_values(f),
                decreases n - i,
            {
                let mut line = pad_right(data[i].0.as_str(), 20);
                line.append(" ");
                line.append(data[i].1.as_str());
                let ghost before = lines@;
                lines.push(line);
                proof {
                    let g = |s: String| s@;
                    assert(d.take(i + 1) =~= d.take(i as int).push(d[i as int]));
                    assert(lines@ =~= before.push(lines@[i as int]));
                    assert(lines@.map_values(g) =~= before.map_values(g).push(g(lines@[i as int])));
                    assert(d.take(i + 1).map_values(f) =~= d.take(i as int).map_values(f).push(
                        f(d[i as int]),
                    ));
                }
                i = i + 1;
            }
            assert(d.take(n as int) =~= d);
        },
        IpcResponse::Error(e) => {
            let mut line = String::from_str("Error: ");
            line.append(e.as_str());
            lines.push(line);
            assert(lines@.map_values(|s: String| s@) =~= status_output(resp@));
        },
        IpcResponse::Accepted => {
            lines.push(String::from_str("Unexpected response"));
            assert(lines@.map_values(|s: String| s@) =~= status_output(resp@));
        },
    }
    lines
}

fn control_line(done: &str, target: &str, resp: &IpcResponse) -> (line: String)
    ensures
        line@ == control_output(done@, target@, resp@),
{
    match resp {
        IpcResponse::Accepted => {
            let mut line = String::from_str(done);
            line.append(target);
            line
        },
        IpcResponse::Error(e) => {
            let mut line = String::from_str("Error: ");
            line.append(e.as_str());
            line
        },
        IpcResponse::StatusData(_) => String::from_str("Unexpected response"),
    }
}

/// The line that `start` prints for the reply `resp` about `target`.
pub fn start_line(target: &str, resp: &IpcResponse) -> (line: String)
    ensures
        line@ == control_output("Started "@, target@, resp@),
{
    control_line("Started ", target, resp)
}

/// The line that `stop` prints for the reply `resp` about `target`.
pub fn stop_line(target: &str, resp: &IpcResponse) -> (line: String)
    ensures
        line@ == control_output("Stopped "@, target@, resp@),
{
    control_line("Stopped ", target, resp)
}

} // verus!
