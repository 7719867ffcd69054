//! Formatting of the aggregate report messages: one line per endpoint on
//! startup, one line per transition in steady state.

use vstd::prelude::*;
use crate::monitor::CycleEntry;
use crate::verdict::Verdict;

verus! {

/// The marker that opens a report line for a verdict.
pub open spec fn spec_marker(v: Verdict) -> Seq<char> {
    match v {
        Verdict::Up => "✅"@,
        Verdict::Down => "❌"@,
    }
}

pub fn marker(v: Verdict) -> (r: &'static str)
    ensures
        r@ == spec_marker(v),
{
    match v {
        Verdict::Up => "✅",
        Verdict::Down => "❌",
    }
}

/// The report line for one endpoint's current status.
pub open spec fn spec_status_line(url: Seq<char>, v: Verdict) -> Seq<char> {
    spec_marker(v) + " "@ + url + " is "@ + v.spec_label()
}

/// The report line for one endpoint's transition.
pub open spec fn spec_change_line(url: Seq<char>, v: Verdict) -> Seq<char> {
    spec_marker(v) + " "@ + url + " is now "@ + v.spec_label()
}

pub fn status_line(url: &str, v: Verdict) -> (r: String)
    ensures
        r@ == spec_status_line(url@, v),
{
    let mut s = String::from_str(marker(v));
    s.append(" ");
    s.append(url);
    s.append(" is ");
    s.append(v.label());
    s
}

pub fn change_line(url: &str, v: Verdict) -> (r: String)
    ensures
        r@ == spec_change_line(url@, v),
{
    let mut s = String::from_str(marker(v));
    s.append(" ");
    s.append(url);
    s.append(" is now ");
    s.append(v.label());
    s
}

/// The lines of a report joined with a newline between each two.
pub open spec fn spec_joined(lines: Seq<Seq<char>>) -> Seq<char>
    decreases lines.len(),
{
    if lines.len() == 0 {
        Seq::empty()
    } else if lines.len() == 1 {
        lines[0]
    } else {
        lines[0] + "\n"@ + spec_joined(lines.subrange(1, lines.len() as int))
    }
}

proof fn lemma_joined_push(lines: Seq<Seq<char>>, x: Seq<char>)
    requires
        lines.len() > 0,
    ensures
        spec_joined(lines.push(x)) == spec_joined(lines) + "\n"@ + x,
    decreases lines.len(),
{
    let p = lines.push(x);
    if lines.len() == 1 {
        assert(p.subrange(1, p.len() as int) =~= seq![x]);
        assert(spec_joined(seq![x]) == x);
        assert(p[0] == lines[0]);
    } else {
        let tail = lines.subrange(1, lines.len() as int);
        assert(p.subrange(1, p.len() as int) =~= tail.push(x));
        lemma_joined_push(tail, x);
        assert(p[0] == lines[0]);
        assert((lines[0] + "\n"@ + (spec_joined(tail) + "\n"@ + x)) =~= ((lines[0] + "\n"@
            + spec_joined(tail)) + "\n"@ + x));
    }
}

/// The lines of a startup report: every endpoint's current status, in
/// configuration order.
pub open spec fn spec_startup_lines(entries: Seq<CycleEntry>) -> Seq<Seq<char>> {
    entries.map_values(|e: CycleEntry| spec_status_line(e.endpoint@, e.verdict))
}

/// The aggregate startup message: a fixed heading, then one status line
/// per endpoint.
pub open spec fn spec_startup_message(entries: Seq<CycleEntry>) -> Seq<char> {
    "🔍 *URL Monitor Started*\nInitial status check:\n"@ + spec_joined(
        spec_startup_lines(entries),
    )
}

/// The lines of a steady-state report: one transition line per entry
/// whose change flag is set, in configuration order; unchanged endpoints
/// get no line.
pub open spec fn spec_change_lines(entries: Seq<CycleEntry>) -> Seq<Seq<char>> {
    entries.filter(|e: CycleEntry| e.changed).map_values(
        |e: CycleEntry| spec_change_line(e.endpoint@, e.verdict),
    )
}

/// The aggregate steady-state message: nothing when no endpoint changed,
/// otherwise a fixed heading and one line per transition.
pub open spec fn spec_changes_message(entries: Seq<CycleEntry>) -> Option<Seq<char>> {
    if spec_change_lines(entries).len() == 0 {
        None
    } else {
        Some("🔔 *URL Status Changes*\n"@ + spec_joined(spec_change_lines(entries)))
    }
}

/// Format the startup report over one cycle's entries.
#[verifier::loop_isolation(false)]
pub fn startup_message(entries: &Vec<CycleEntry>) -> (r: String)
    ensures
        r@ == spec_startup_message(entries@),
{
    let mut joined = String::new();
    let mut i: usize = 0;
    proof {
        assert(entries@.subrange(0, 0) =~= Seq::<CycleEntry>::empty());
        assert(spec_startup_lines(Seq::<CycleEntry>::empty()) =~= Seq::<Seq<char>>::empty());
    }
    while i < entries.len()
        invariant
            i <= entries@.len(),
            joined@ == spec_joined(spec_startup_lines(entries@.subrange(0, i as int))),
        decreases entries@.len() - i,
    {
        let ghost prefix = spec_startup_lines(entries@.subrange(0, i as int));
        let ghost step = spec_startup_lines(entries@.subrange(0, i + 1));
        proof {
            assert(entries@.subrange(0, i + 1) =~= entries@.subrange(0, i as int).push(
                entries@[i as int],
            ));
            assert(step =~= prefix.push(
                spec_status_line(entries@[i as int].endpoint@, entries@[i as int].verdict),
            ));
        }
        let line = status_line(entries[i].endpoint.as_str(), entries[i].verdict);
        if i > 0 {
            joined.append("\n");
            proof {
                lemma_joined_push(
                    prefix,
                    spec_status_line(entries@[i as int].endpoint@, entries@[i as int].verdict),
                );
            }
        } else {
            proof {
                assert(step =~= seq![
                    spec_status_line(entries@[0].endpoint@, entries@[0].verdict),
                ]);
            }
        }
        joined.append(line.as_str());
        proof {
            assert(joined@ =~= spec_joined(step));
        }
        i += 1;
    }
    proof {
        assert(entries@.subrange(0, entries@.len() as int) =~= entries@);
    }
    String::from_str("🔍 *URL Monitor Started*\nInitial status check:\n").concat(joined.as_str())
}

/// Format the steady-state report over one cycle's entries: the changed
/// ones only, or nothing at all when no endpoint changed.
#[verifier::loop_isolation(false)]
pub fn changes_message(entries: &Vec<CycleEntry>) -> (r: Option<String>)
    ensures
        match spec_changes_message(entries@) {
            Option::Some(s) => r is Some && r->0@ == s,
            Option::None => r is None,
        },
        r is None <==> (forall|i: int| 0 <= i < entries@.len() ==> !(#[trigger] entries@[i]).changed),
{
    let mut joined = String::new();
    let mut any = false;
    let mut i: usize = 0;
    proof {
        reveal(Seq::filter);
        assert(entries@.subrange(0, 0) =~= Seq::<CycleEntry>::empty());
        assert(spec_change_lines(entries@.subrange(0, 0)) =~= Seq::<Seq<char>>::empty());
    }
    while i < entries.len()
        invariant
            i <= entries@.len(),
            joined@ == spec_joined(spec_change_lines(entries@.subrange(0, i as int))),
            any <==> spec_change_lines(entries@.subrange(0, i as int)).len() > 0,
            any <==> exists|j: int| 0 <= j < i && (#[trigger] entries@[j]).changed,
        decreases entries@.len() - i,
    {
        let ghost prefix_entries = entries@.subrange(0, i as int);
        let ghost step_entries = entries@.subrange(0, i + 1);
        let ghost prefix = spec_change_lines(prefix_entries);
        let ghost step = spec_change_lines(step_entries);
        proof {
            reveal(Seq::filter);
            assert(step_entries =~= prefix_entries.push(entries@[i as int]));
            assert(step_entries.drop_last() =~= prefix_entries);
            if entries@[i as int].changed {
                assert(step_entries.filter(|e: CycleEntry| e.changed) =~= prefix_entries.filter(
                    |e: CycleEntry| e.changed,
                ).push(entries@[i as int]));
                assert(step =~= prefix.push(
                    spec_change_line(entries@[i as int].endpoint@, entries@[i as int].verdict),
                ));
            } else {
                assert(step_entries.filter(|e: CycleEntry| e.changed) =~= prefix_entries.filter(
                    |e: CycleEntry| e.changed,
                ));
                assert(step =~= prefix);
            }
        }
        if entries[i].changed {
            let line = change_line(entries[i].endpoint.as_str(), entries[i].verdict);
            if any {
                joined.append("\n");
                proof {
                    lemma_joined_push(
                        prefix,
                        spec_change_line(entries@[i as int].endpoint@, entries@[i as int].verdict),
                    );
                }
            } else {
                proof {
                    assert(step =~= seq![
                        spec_change_line(entries@[i as int].endpoint@, entries@[i as int].verdict),
                    ]);
                }
            }
            joined.append(line.as_str());
            any = true;
            proof {
                assert(joined@ =~= spec_joined(step));
            }
        }
        i += 1;
    }
    proof {
        assert(entries@.subrange(0, entries@.len() as int) =~= entries@);
    }
    if any {
        Option::Some(String::from_str("🔔 *URL Status Changes*\n").concat(joined.as_str()))
    } else {
        Option::None
    }
}

} // verus!
