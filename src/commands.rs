//! The shell commands that start the load generator for a run: alone, or as
//! a coordinator with sub-workers.
use vstd::prelude::*;
use crate::paths::{decimal, decimal_text};

verus! {

/// The user count of a run: as requested, or 1.
pub open spec fn users_part(users: Option<u32>) -> Seq<char> {
    "--users "@ + decimal(
        match users {
            Some(u) => u as nat,
            None => 1,
        },
    )
}

/// The spawn rate of a run: as requested, or 1.
pub open spec fn spawn_rate_part(rate: Option<u32>) -> Seq<char> {
    "--spawn-rate "@ + decimal(
        match rate {
            Some(r) => r as nat,
            None => 1,
        },
    )
}

/// The duration of a run in seconds, where one was requested.
pub open spec fn time_part(time: Option<u32>) -> Seq<char> {
    match time {
        Some(t) => "--run-time "@ + decimal(t as nat) + "s"@,
        None => Seq::empty(),
    }
}

/// The host under test, where one was given.
pub open spec fn host_part(host: Option<Seq<char>>) -> Seq<char> {
    match host {
        Some(h) => "--host "@ + h,
        None => Seq::empty(),
    }
}

/// The command of a run: the load generator on the script, without a
/// browser, with the run's parameters, its log file and its CSV prefix.
pub open spec fn run_command(
    bin: Seq<char>,
    script: Seq<char>,
    users: Option<u32>,
    spawn_rate: Option<u32>,
    time: Option<u32>,
    host: Option<Seq<char>>,
    log: Seq<char>,
    csv: Seq<char>,
) -> Seq<char> {
    bin + " -f "@ + script + " --headless "@ + users_part(users) + " "@ + spawn_rate_part(
        spawn_rate,
    ) + " "@ + time_part(time) + " "@ + host_part(host) + " --logfile "@ + log + " --csv "@ + csv
}

/// The command of the coordinator of a grouped run.
pub open spec fn coordinator_command(run: Seq<char>, port: u16, workers: u32) -> Seq<char> {
    run + " --master --master-bind-port="@ + decimal(port as nat) + " --expect-workers "@
        + decimal(workers as nat)
}

/// The command of sub-worker `index` (counted from 1) of a grouped run.
pub open spec fn member_command(
    bin: Seq<char>,
    script: Seq<char>,
    log: Seq<char>,
    port: u16,
    index: u32,
    with_id: bool,
) -> Seq<char> {
    bin + " -f "@ + script + " --logfile "@ + log + " --worker --master-port="@ + decimal(
        port as nat,
    ) + " "@ + if with_id {
        "--worker-id="@ + decimal(index as nat)
    } else {
        Seq::empty()
    }
}

/// The number of sub-workers of a run: as requested, none otherwise.
pub fn member_count(requested: Option<u32>) -> (r: u32)
    ensures
        r == match requested {
            Some(w) => w,
            None => 0,
        },
{
    match requested {
        Some(w) => w,
        None => 0,
    }
}

fn append_number(s: &mut String, n: u32)
    ensures
        final(s)@ == old(s)@ + decimal(n as nat),
{
    let d = decimal_text(n);
    s.append(d.as_str());
}

pub fn build_run_command(
    bin: &str,
    script: &str,
    users: Option<u32>,
    spawn_rate: Option<u32>,
    time: Option<u32>,
    host: &Option<String>,
    log: &str,
    csv: &str,
) -> (r: String)
    ensures
        r@ == run_command(
            bin@,
            script@,
            users,
            spawn_rate,
            time,
            match host {
                Some(h) => Some(h@),
                None => None,
            },
            log@,
            csv@,
        ),
{
    proof {
        reveal_strlit(" -f ");
        reveal_strlit(" --headless ");
        reveal_strlit("--users ");
        reveal_strlit("--spawn-rate ");
        reveal_strlit("--run-time ");
        reveal_strlit("s");
        reveal_strlit("--host ");
        reveal_strlit(" ");
        reveal_strlit(" --logfile ");
        reveal_strlit(" --csv ");
    }
    let mut r = String::from_str(bin);
    r.append(" -f ");
    r.append(script);
    r.append(" --headless ");
    r.append("--users ");
    append_number(
        &mut r,
        match users {
            Some(u) => u,
            None => 1,
        },
    );
    r.append(" ");
    r.append("--spawn-rate ");
    append_number(
        &mut r,
        match spawn_rate {
            Some(x) => x,
            None => 1,
        },
    );
    r.append(" ");
    match time {
        Some(t) => {
            r.append("--run-time ");
            append_number(&mut r, t);
            r.append("s");
        },
        None => {},
    }
    r.append(" ");
    match host {
        Some(h) => {
            r.append("--host ");
            r.append(h.as_str());
        },
        None => {},
    }
    r.append(" --logfile ");
    r.append(log);
    r.append(" --csv ");
    r.append(csv);
    assert(r@ =~= run_command(
        bin@,
        script@,
        users,
        spawn_rate,
        time,
        match host {
            Some(h) => Some(h@),
            None => None,
        },
        log@,
        csv@,
    ));
    r
}

pub fn build_coordinator_command(run: &str, port: u16, workers: u32) -> (r: String)
    ensures
        r@ == coordinator_command(run@, port, workers),
{
    proof {
        reveal_strlit(" --master --master-bind-port=");
        reveal_strlit(" --expect-workers ");
    }
    let mut r = String::from_str(run);
    r.append(" --master --master-bind-port=");
    append_number(&mut r, port as u32);
    r.append(" --expect-workers ");
    append_number(&mut r, workers);
    assert(r@ =~= coordinator_command(run@, port, workers));
    r
}

pub fn build_member_command(
    bin: &str,
    script: &str,
    log: &str,
    port: u16,
    index: u32,
    with_id: bool,
) -> (r: String)
    ensures
        r@ == member_command(bin@, script@, log@, port, index, with_id),
{
    proof {
        reveal_strlit(" -f ");
        reveal_strlit(" --logfile ");
        reveal_strlit(" --worker --master-port=");
        reveal_strlit(" ");
        reveal_strlit("--worker-id=");
    }
    let mut r = String::from_str(bin);
    r.append(" -f ");
    r.append(script);
    r.append(" --logfile ");
    r.append(log);
    r.append(" --worker --master-port=");
    append_number(&mut r, port as u32);
    r.append(" ");
    if with_id {
        r.append("--worker-id=");
        append_number(&mut r, index);
    }
    assert(r@ =~= member_command(bin@, script@, log@, port, index, with_id));
    r
}

} // verus!
