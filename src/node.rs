//! Small decisions of a node that rest on outside crates: a free TCP port
//! for a coordinator process, and the project name of an uploaded file.
use vstd::prelude::*;

verus! {

/// The first port tried is the one after this.
pub const PORT_SEARCH_START: u16 = 5000;

/// The search gives up after trying the port after this.
pub const PORT_SEARCH_END: u16 = 50000;

/// What `regex` makes of `text` when every match of `pattern` in it is
/// replaced by `replacement`.
pub uninterp spec fn regex_replaced(pattern: Seq<char>, text: Seq<char>, replacement: Seq<char>) -> Seq<char>;

/// Relies on port_scanner::local_port_available: whether a listener could be
/// bound to the port on this machine at the time of the call. Nothing is
/// promised of the answer.
#[verifier::external_body]
fn port_available(port: u16) -> (r: bool) {
    port_scanner::local_port_available(port)
}

/// Relies on regex::Regex::new, which compiles the pattern or fails (only
/// on a syntax error or a pattern over the size limit, neither of which
/// `\s+` is), and on Regex::replace_all, which replaces every match in the
/// text.
#[verifier::external_body]
fn replace_all_matches(pattern: &str, text: &str, replacement: &str) -> (r: Option<String>)
    ensures
        match r {
            Some(s) => s@ == regex_replaced(pattern@, text@, replacement@),
            None => true,
        },
        pattern@ == "\\s+"@ ==> r is Some,
{
    match regex::Regex::new(pattern) {
        Ok(re) => Some(re.replace_all(text, replacement).into_owned()),
        Err(_) => None,
    }
}

/// What the search for a free port does after probing one port.
#[derive(PartialEq, Eq, Structural, Clone, Copy, Debug)]
pub enum PortProbe {
    /// The port is free: take it.
    Take(u16),
    /// Probe the next port.
    Next,
    /// The search is over without a free port.
    GiveUp,
}

/// The decision after probing `port`, which was found `available` or not.
pub fn after_probe(port: u16, available: bool) -> (r: PortProbe)
    requires
        PORT_SEARCH_START < port <= PORT_SEARCH_END + 1,
    ensures
        r == if available {
            PortProbe::Take(port)
        } else if port > PORT_SEARCH_END {
            PortProbe::GiveUp
        } else {
            PortProbe::Next
        },
{
    if available {
        PortProbe::Take(port)
    } else if port > PORT_SEARCH_END {
        PortProbe::GiveUp
    } else {
        PortProbe::Next
    }
}

/// A free port for the coordinator of a grouped run: the first port after
/// the start of the search that could be bound, trying up to and including
/// the one after its end. Which ports are free is the machine's to say.
pub fn get_a_free_port() -> (r: Result<u16, String>)
    ensures
        match r {
            Ok(p) => PORT_SEARCH_START < p <= PORT_SEARCH_END + 1,
            Err(e) => e@ == "No free port found!"@,
        },
{
    let mut port: u16 = PORT_SEARCH_START;
    loop
        invariant
            PORT_SEARCH_START <= port <= PORT_SEARCH_END,
        decreases PORT_SEARCH_END - port,
    {
        port = port + 1;
        match after_probe(port, port_available(port)) {
            PortProbe::Take(p) => {
                return Ok(p);
            },
            PortProbe::GiveUp => {
                return Err(String::from_str("No free port found!"));
            },
            PortProbe::Next => {},
        }
    }
}

/// The part of an uploaded file's path before its first `/`, where it is not
/// empty.
pub open spec fn first_component(path: Seq<char>) -> Option<Seq<char>> {
    if exists|i: int| 0 <= i < path.len() && path[i] == '/' {
        let k = choose|i: int|
            0 <= i < path.len() && path[i] == '/' && forall|j: int| 0 <= j < i ==> path[j] != '/';
        if k == 0 {
            None
        } else {
            Some(path.subrange(0, k))
        }
    } else if path.len() == 0 {
        None
    } else {
        Some(path)
    }
}

/// The project that an uploaded file belongs to: the first component of its
/// path, the whitespace of which was already replaced.
pub fn project_name_of(path: &str) -> (r: Option<&str>)
    ensures
        match r {
            Some(p) => first_component(path@) == Some(p@),
            None => first_component(path@) is None,
        },
{
    let n = path.unicode_len();
    let mut i: usize = 0;
    while i < n
        invariant
            i <= n,
            n == path@.len(),
            forall|j: int| 0 <= j < i ==> path@[j] != '/',
        decreases n - i,
    {
        if path.get_char(i) == '/' {
            proof {
                let k = choose|k: int|
                    0 <= k < path@.len() && path@[k] == '/' && forall|j: int|
                        0 <= j < k ==> path@[j] != '/';
                assert(k == i as int) by {
                    if k < i {
                        assert(path@[k] != '/');
                    }
                    if k > i {
                        assert(path@[i as int] == '/');
                    }
                }
            }
            if i == 0 {
                return None;
            }
            return Some(path.substring_char(0, i));
        }
        i = i + 1;
    }
    if n == 0 {
        None
    } else {
        assert(path@.subrange(0, n as int) =~= path@);
        Some(path.substring_char(0, n))
    }
}

/// An uploaded file's name with each run of whitespace replaced by `_`.
pub fn sanitize_file_name(file_name: &str) -> (r: String)
    ensures
        r@ == regex_replaced("\\s+"@, file_name@, "_"@),
{
    match replace_all_matches("\\s+", file_name, "_") {
        Some(cleaned) => cleaned,
        None => String::from_str(file_name),
    }
}

/// The project that an uploaded file belongs to, after each run of
/// whitespace in its name was replaced by `_`.
pub fn upload_project_name(file_name: &str) -> (r: Option<String>)
    ensures
        match r {
            Some(p) => first_component(regex_replaced("\\s+"@, file_name@, "_"@)) == Some(p@),
            None => first_component(regex_replaced("\\s+"@, file_name@, "_"@)) is None,
        },
{
    let cleaned = sanitize_file_name(file_name);
    match project_name_of(cleaned.as_str()) {
        Some(p) => Some(p.to_owned()),
        None => None,
    }
}

/// A file of a project's scripts directory is listed as a script where its
/// name has no extension, or the extension `py`. As for paths, a name whose
/// only dot is its first character has no extension.
pub open spec fn is_listed_script(name: Seq<char>) -> bool {
    forall|i: int| 0 < i < name.len() && name[i] == '.' ==> (exists|j: int|
        i < j < name.len() && name[j] == '.') || name.subrange(i + 1, name.len() as int)
        == "py"@
}

pub fn is_script_name(name: &str) -> (r: bool)
    ensures
        r == is_listed_script(name@),
{
    let n = name.unicode_len();
    let mut i: usize = n;
    while i > 1
        invariant
            i <= n,
            n == name@.len(),
            forall|j: int| i <= j < n ==> name@[j] != '.',
        decreases i,
    {
        if name.get_char(i - 1) == '.' {
            let ext = name.substring_char(i, n);
            proof {
                reveal_strlit("py");
            }
            let r = ext.to_owned() == "py".to_owned();
            proof {
                let d = (i - 1) as int;
                assert(ext@ == name@.subrange(d + 1, name@.len() as int));
                if r {
                    assert forall|k: int| 0 < k < name@.len() && name@[k] == '.' implies (exists|
                        j: int,
                    | k < j < name@.len() && name@[j] == '.') || name@.subrange(
                        k + 1,
                        name@.len() as int,
                    ) == "py"@ by {
                        if k < d {
                            assert(name@[d] == '.');
                        }
                    }
                } else {
                    assert(!(exists|j: int| d < j < name@.len() && name@[j] == '.'));
                }
            }
            return r;
        }
        i = i - 1;
    }
    true
}

} // verus!
