//! The on-disk layout of projects, environments and results, as paths
//! relative to the node's working directory.
use vstd::prelude::*;

verus! {

/// Directory, beside the working directory, that holds all data.
pub const DATA_DIR: &'static str = "Performance-Testing-Data";

/// Installed projects.
pub const PROJECTS_DIR: &'static str = "projects";

/// Projects that are being installed.
pub const TEMP_DIR: &'static str = "temp";

/// The virtual environment of each project.
pub const ENVIRONMENTS_DIR: &'static str = "environments";

/// Results of the runs of a project.
pub const RESULTS_DIR: &'static str = "results";

/// Directory of a project that holds its scripts.
pub const LOCUST_DIR: &'static str = "locust";

/// A relative path, kept as the sequence of its components.
pub struct DataPath {
    pub parts: Vec<String>,
}

impl View for DataPath {
    type V = Seq<Seq<char>>;

    open spec fn view(&self) -> Seq<Seq<char>> {
        self.parts@.map_values(|s: String| s@)
    }
}

/// The components joined with `/`.
pub open spec fn joined(ps: Seq<Seq<char>>) -> Seq<char>
    decreases ps.len(),
{
    if ps.len() == 0 {
        Seq::empty()
    } else if ps.len() == 1 {
        ps[0]
    } else {
        joined(ps.drop_last()) + seq!['/'] + ps.last()
    }
}

/// The decimal digits of `n`.
pub open spec fn decimal(n: nat) -> Seq<char>
    decreases n,
{
    if n < 10 {
        seq![digit_char(n)]
    } else {
        decimal(n / 10) + seq![digit_char(n % 10)]
    }
}

pub open spec fn digit_char(d: nat) -> char {
    if d == 0 {
        '0'
    } else if d == 1 {
        '1'
    } else if d == 2 {
        '2'
    } else if d == 3 {
        '3'
    } else if d == 4 {
        '4'
    } else if d == 5 {
        '5'
    } else if d == 6 {
        '6'
    } else if d == 7 {
        '7'
    } else if d == 8 {
        '8'
    } else {
        '9'
    }
}

pub open spec fn data_dir_view() -> Seq<Seq<char>> {
    seq![".."@, DATA_DIR@]
}

pub open spec fn project_dir_view(id: Seq<char>) -> Seq<Seq<char>> {
    data_dir_view().push(PROJECTS_DIR@).push(id)
}

pub open spec fn locust_dir_view(id: Seq<char>) -> Seq<Seq<char>> {
    project_dir_view(id).push(LOCUST_DIR@)
}

pub open spec fn script_results_dir_view(p: Seq<char>, s: Seq<char>) -> Seq<Seq<char>> {
    project_dir_view(p).push(RESULTS_DIR@).push(s)
}

pub open spec fn test_results_dir_view(p: Seq<char>, s: Seq<char>, t: Seq<char>) -> Seq<
    Seq<char>,
> {
    script_results_dir_view(p, s).push(t)
}

/// A run's directory as seen from the project's directory, where the load
/// generator runs.
pub open spec fn relative_test_dir_view(p: Seq<char>, s: Seq<char>, t: Seq<char>) -> Seq<
    Seq<char>,
> {
    seq!["../.."@, PROJECTS_DIR@, p, RESULTS_DIR@, s, t]
}

impl DataPath {
    /// A path of one component.
    pub fn new(first: &str) -> (r: DataPath)
        ensures
            r@ == seq![first@],
    {
        let mut parts: Vec<String> = Vec::new();
        parts.push(String::from_str(first));
        let r = DataPath { parts };
        assert(r@ =~= seq![first@]);
        r
    }

    /// This path with one more component at its end.
    pub fn join(self, part: &str) -> (r: DataPath)
        ensures
            r@ == self@.push(part@),
    {
        let mut parts = self.parts;
        parts.push(String::from_str(part));
        let r = DataPath { parts };
        assert(r@ =~= self@.push(part@));
        r
    }

    /// The path written out, its components separated by `/`.
    pub fn to_path_string(&self) -> (r: String)
        ensures
            r@ == joined(self@),
    {
        proof {
            reveal_strlit("/");
        }
        let mut r = String::new();
        let mut i: usize = 0;
        while i < self.parts.len()
            invariant
                i <= self.parts.len(),
                r@ == joined(self@.subrange(0, i as int)),
            decreases self.parts.len() - i,
        {
            let ghost pre = self@.subrange(0, i as int);
            let ghost next = self@.subrange(0, i + 1);
            assert(next.drop_last() =~= pre);
            assert(next.last() == self.parts[i as int]@);
            let ghost r0 = r@;
            if i > 0 {
                let sep = "/";
                proof {
                    reveal_strlit("/");
                    assert(sep@ =~= seq!['/']);
                }
                r.append(sep);
                assert(r@ =~= r0 + seq!['/']);
            }
            let ghost r1 = r@;
            r.append(self.parts[i].as_str());
            assert(r@ =~= r1 + next.last());
            proof {
                if i == 0 {
                    assert(pre.len() == 0);
                    assert(r@ =~= next[0]);
                } else {
                    assert(r@ =~= joined(pre) + seq!['/'] + next.last());
                }
            }
            i = i + 1;
        }
        assert(self@.subrange(0, self.parts.len() as int) =~= self@);
        r
    }
}

/// The text of one decimal digit.
fn digit_text(d: u32) -> (r: &'static str)
    requires
        d < 10,
    ensures
        r@ == seq![digit_char(d as nat)],
{
    proof {
        reveal_strlit("0");
        reveal_strlit("1");
        reveal_strlit("2");
        reveal_strlit("3");
        reveal_strlit("4");
        reveal_strlit("5");
        reveal_strlit("6");
        reveal_strlit("7");
        reveal_strlit("8");
        reveal_strlit("9");
    }
    if d == 0 {
        "0"
    } else if d == 1 {
        "1"
    } else if d == 2 {
        "2"
    } else if d == 3 {
        "3"
    } else if d == 4 {
        "4"
    } else if d == 5 {
        "5"
    } else if d == 6 {
        "6"
    } else if d == 7 {
        "7"
    } else if d == 8 {
        "8"
    } else {
        "9"
    }
}

/// `n` written in decimal.
pub fn decimal_text(n: u32) -> (r: String)
    ensures
        r@ == decimal(n as nat),
{
    let mut r = String::from_str(digit_text(n % 10));
    let mut m: u32 = n / 10;
    while m > 0
        invariant
            decimal(n as nat) == (if m > 0 {
                decimal(m as nat)
            } else {
                Seq::empty()
            }) + r@,
        decreases m,
    {
        let d = String::from_str(digit_text(m % 10));
        r = d.concat(r.as_str());
        assert(decimal(m as nat) == decimal((m / 10) as nat) + seq![digit_char((m % 10) as nat)]
            || m < 10);
        m = m / 10;
        proof {
            if m > 0 {
                assert(decimal(n as nat) =~= decimal(m as nat) + r@);
            } else {
                assert(decimal(n as nat) =~= Seq::<char>::empty() + r@);
            }
        }
    }
    assert(decimal(n as nat) =~= r@);
    r
}

pub fn get_data_dir() -> (r: DataPath)
    ensures
        r@ == data_dir_view(),
{
    DataPath::new("..").join(DATA_DIR)
}

pub fn get_temp_dir() -> (r: DataPath)
    ensures
        r@ == data_dir_view().push(TEMP_DIR@),
{
    get_data_dir().join(TEMP_DIR)
}

pub fn get_environments_dir() -> (r: DataPath)
    ensures
        r@ == data_dir_view().push(ENVIRONMENTS_DIR@),
{
    get_data_dir().join(ENVIRONMENTS_DIR)
}

pub fn get_results_dir() -> (r: DataPath)
    ensures
        r@ == data_dir_view().push(RESULTS_DIR@),
{
    get_data_dir().join(RESULTS_DIR)
}

pub fn get_projects_dir() -> (r: DataPath)
    ensures
        r@ == data_dir_view().push(PROJECTS_DIR@),
{
    get_data_dir().join(PROJECTS_DIR)
}

pub fn get_a_project_dir(id: &str) -> (r: DataPath)
    ensures
        r@ == project_dir_view(id@),
{
    get_projects_dir().join(id)
}

pub fn get_a_temp_dir(id: &str) -> (r: DataPath)
    ensures
        r@ == data_dir_view().push(TEMP_DIR@).push(id@),
{
    get_temp_dir().join(id)
}

pub fn get_an_environment_dir(id: &str) -> (r: DataPath)
    ensures
        r@ == data_dir_view().push(ENVIRONMENTS_DIR@).push(id@),
{
    get_environments_dir().join(id)
}

pub fn get_a_locust_dir(id: &str) -> (r: DataPath)
    ensures
        r@ == locust_dir_view(id@),
{
    get_a_project_dir(id).join(LOCUST_DIR)
}

pub fn get_a_project_results_dir(id: &str) -> (r: DataPath)
    ensures
        r@ == project_dir_view(id@).push(RESULTS_DIR@),
{
    get_a_project_dir(id).join(RESULTS_DIR)
}

pub fn get_a_script_results_dir(project_id: &str, script_id: &str) -> (r: DataPath)
    ensures
        r@ == script_results_dir_view(project_id@, script_id@),
{
    get_a_project_results_dir(project_id).join(script_id)
}

pub fn get_script_file(project_id: &str, script_id: &str) -> (r: DataPath)
    ensures
        r@ == locust_dir_view(project_id@).push(script_id@),
{
    get_a_locust_dir(project_id).join(script_id)
}

/// The JSON settings file that may stand beside a script.
pub fn get_config_file(project_id: &str, script_id: &str) -> (r: DataPath)
    ensures
        r@ == locust_dir_view(project_id@).push(script_id@ + ".json"@),
{
    let name = String::from_str(script_id).concat(".json");
    get_a_locust_dir(project_id).join(name.as_str())
}

pub fn get_a_test_results_dir(project_id: &str, script_id: &str, test_id: &str) -> (r: DataPath)
    ensures
        r@ == test_results_dir_view(project_id@, script_id@, test_id@),
{
    get_a_script_results_dir(project_id, script_id).join(test_id)
}

pub fn get_zip_file(project_id: &str, script_id: &str, test_id: &str) -> (r: DataPath)
    ensures
        r@ == test_results_dir_view(project_id@, script_id@, test_id@).push("results.zip"@),
{
    get_a_script_results_dir(project_id, script_id).join(test_id).join("results.zip")
}

pub fn get_plot_file(project_id: &str, script_id: &str, test_id: &str) -> (r: DataPath)
    ensures
        r@ == test_results_dir_view(project_id@, script_id@, test_id@).push("results.png"@),
{
    get_a_script_results_dir(project_id, script_id).join(test_id).join("results.png")
}

/// The run's log file, relative to the project's directory.
pub fn get_log_file_relative_path(project_id: &str, script_id: &str, test_id: &str) -> (r:
    DataPath)
    ensures
        r@ == relative_test_dir_view(project_id@, script_id@, test_id@).push("log.log"@),
{
    let r = DataPath::new("../..").join(PROJECTS_DIR).join(project_id).join(RESULTS_DIR).join(
        script_id,
    ).join(test_id).join("log.log");
    assert(r@ =~= relative_test_dir_view(project_id@, script_id@, test_id@).push("log.log"@));
    r
}

/// The log file of one sub-worker of a run, relative to the project's
/// directory, where the load generator runs.
pub fn get_log_file_relative_path_for_worker(
    project_id: &str,
    script_id: &str,
    test_id: &str,
    worker_id: u32,
) -> (r: DataPath)
    ensures
        r@ == relative_test_dir_view(project_id@, script_id@, test_id@).push(
            "worker_"@ + decimal(worker_id as nat) + "_log.log"@,
        ),
{
    let name = String::from_str("worker_").concat(decimal_text(worker_id).as_str()).concat(
        "_log.log",
    );
    let r = DataPath::new("../..").join(PROJECTS_DIR).join(project_id).join(RESULTS_DIR).join(
        script_id,
    ).join(test_id).join(name.as_str());
    assert(r@ =~= relative_test_dir_view(project_id@, script_id@, test_id@).push(
        "worker_"@ + decimal(worker_id as nat) + "_log.log"@,
    ));
    r
}

pub fn get_csv_file_path(project_id: &str, script_id: &str, test_id: &str) -> (r: DataPath)
    ensures
        r@ == test_results_dir_view(project_id@, script_id@, test_id@).push(
            "results_stats.csv"@,
        ),
{
    get_a_test_results_dir(project_id, script_id, test_id).join("results_stats.csv")
}

pub fn get_csv_history_file_path(project_id: &str, script_id: &str, test_id: &str) -> (r:
    DataPath)
    ensures
        r@ == test_results_dir_view(project_id@, script_id@, test_id@).push(
            "results_stats_history.csv"@,
        ),
{
    get_a_test_results_dir(project_id, script_id, test_id).join("results_stats_history.csv")
}

/// The prefix that the load generator gives its CSV files, relative to the
/// project's directory, where the load generator runs.
pub fn get_csv_file_relative_path(project_id: &str, script_id: &str, test_id: &str) -> (r:
    DataPath)
    ensures
        r@ == relative_test_dir_view(project_id@, script_id@, test_id@).push("results"@),
{
    let r = DataPath::new("../..").join(PROJECTS_DIR).join(project_id).join(RESULTS_DIR).join(
        script_id,
    ).join(test_id).join("results");
    assert(r@ =~= relative_test_dir_view(project_id@, script_id@, test_id@).push("results"@));
    r
}

pub fn get_info_file_path(project_id: &str, script_id: &str, test_id: &str) -> (r: DataPath)
    ensures
        r@ == test_results_dir_view(project_id@, script_id@, test_id@).push("info.json"@),
{
    get_a_test_results_dir(project_id, script_id, test_id).join("info.json")
}

} // verus!
