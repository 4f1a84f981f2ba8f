//! The command surface of the line search: the two values it is started with,
//! and the report it hands back for printing.

use vstd::prelude::*;
use vstd::string::StringExecFns;
use crate::search::{matching_lines, search};
use crate::text::views;

verus! {

/// What to look for, and the name of the file to look in.
pub struct Config {
    pub query: String,
    pub filename: String,
}

impl View for Config {
    type V = (Seq<char>, Seq<char>);

    /// The query and the file name, in this order.
    open spec fn view(&self) -> (Seq<char>, Seq<char>) {
        (self.query@, self.filename@)
    }
}

/// What each of the strings in `lines` holds.
pub open spec fn owned_views(lines: Seq<String>) -> Seq<Seq<char>> {
    lines.map_values(|line: String| line@)
}

/// The report of a search for `query` in `contents`: each matching line, in
/// the order of the text, behind the marker `found: `.
pub open spec fn report_lines(query: Seq<char>, contents: Seq<char>) -> Seq<Seq<char>> {
    matching_lines(query, contents).map_values(|line: Seq<char>| "found: "@ + line)
}

impl Config {
    /// Reads a configuration from `args`, whose first entry names the program
    /// and is passed over: the second entry is the query and the third the
    /// file name. Further entries are ignored. Without a second entry the
    /// query is reported missing, without a third the file name.
    pub fn new(args: Vec<String>) -> (parsed: Result<Config, &'static str>)
        ensures
            match parsed {
                Ok(config) => args@.len() >= 3 && config@ == (args@[1]@, args@[2]@),
                Err(message) => args@.len() < 3 && message@ == if args@.len() < 2 {
                    "Didn't get a query string"@
                } else {
                    "Didn't get a filename"@
                },
            },
    {
        let mut rest = args;
        if rest.len() < 2 {
            return Err("Didn't get a query string");
        }
        if rest.len() < 3 {
            return Err("Didn't get a filename");
        }
        let filename = rest.remove(2);
        let query = rest.remove(1);
        Ok(Config { query, filename })
    }
}

/// Searches `contents`, the text of the file that `config` names, for the
/// query of `config`, and returns the lines to print: one for each line that
/// contains the query.
pub fn run(config: Config, contents: &str) -> (report: Vec<String>)
    ensures
        owned_views(report@) == report_lines(config.query@, contents@),
{
    let found = search(config.query.as_str(), contents);
    let mut report: Vec<String> = Vec::new();
    let mut i: usize = 0;
    while i < found.len()
        invariant
            i <= found.len(),
            views(found@) == matching_lines(config.query@, contents@),
            report@.len() == i,
            forall|k: int| 0 <= k < i ==> (#[trigger] report@[k])@ == "found: "@ + found@[k]@,
        decreases found.len() - i,
    {
        let mut entry = String::from_str("found: ");
        entry.append(found[i]);
        report.push(entry);
        i += 1;
    }
    report
}

} // verus!
