//! What cuprof, the library that is put into a target, is told, and where it
//! leaves its trace.

use crate::constants::{CF_UNIXSOCK, DEFAULT_PATH, DEFAULT_PREFIX};
use crate::numbers::{dec, decimal, lemma_numeral, push_dec, push_decimal};
use crate::text::{
    at, law_uncut_text_is_one_piece, lemma_pieces_concat, lines, lower, read_setting, same_lowered,
    setting,
};
use crate::unix_handler::{root_of, socket_under, UnixSocketHandler};
use vstd::prelude::*;

verus! {

/// What a collection window is told.
#[derive(Debug)]
pub struct CuprofConfig {
    /// The trace to write, as the target sees it.
    pub output: String,
    /// The seconds to collect for; zero for no limit.
    pub duration_sec: u32,
    /// Whether to print diagnostics on the standard error of the target.
    pub verbose: bool,
    /// The lifecycle socket, as the target sees it; empty for none.
    pub socket_path: String,
}

/// What a [`CuprofConfig`] says.
pub struct Config {
    pub output: Seq<char>,
    pub duration_sec: u32,
    pub verbose: bool,
    pub socket_path: Seq<char>,
}

impl View for CuprofConfig {
    type V = Config;

    open spec fn view(&self) -> Config {
        Config {
            output: self.output@,
            duration_sec: self.duration_sec,
            verbose: self.verbose,
            socket_path: self.socket_path@,
        }
    }
}

/// A configuration says what its fields hold.
pub proof fn law_a_config_says_what_it_holds(config: CuprofConfig)
    ensures
        config@.output == config.output@,
        config@.duration_sec == config.duration_sec,
        config@.verbose == config.verbose,
        config@.socket_path == config.socket_path@,
{
}

/// One line of a configuration file.
pub open spec fn entry(key: Seq<char>, value: Seq<char>) -> Seq<char> {
    key + value + "\n"@
}

/// `text`, where there is to be any.
pub open spec fn given(yes: bool, text: Seq<char>) -> Seq<char> {
    if yes {
        text
    } else {
        Seq::empty()
    }
}

/// The configuration file of a window. It has a line for the output, and for each
/// other field that was given; a duration of zero is none.
pub open spec fn config_text(config: Config) -> Seq<char> {
    entry("CUPROF_OUTPUT="@, config.output) + given(
        config.duration_sec > 0,
        entry("CUPROF_DURATION="@, dec(config.duration_sec as nat)),
    ) + given(config.verbose, entry("CUPROF_VERBOSE="@, "1"@)) + given(
        config.socket_path.len() > 0,
        entry("CUPROF_SOCKET="@, config.socket_path),
    )
}

/// The value that a configuration file gives a key: what follows the key in the
/// first line that begins with it.
pub open spec fn value_in(rows: Seq<Seq<char>>, key: Seq<char>) -> Option<Seq<char>>
    decreases rows.len(),
{
    if rows.len() == 0 {
        None
    } else if key.is_prefix_of(rows[0]) {
        Some(rows[0].skip(key.len() as int))
    } else {
        value_in(rows.drop_first(), key)
    }
}

proof fn lemma_entry_lines(key: Seq<char>, value: Seq<char>, rest: Seq<char>)
    requires
        !key.contains('\n'),
        !value.contains('\n'),
    ensures
        lines(entry(key, value) + rest) == seq![key + value] + lines(rest),
{
    let row = key + value;
    reveal_strlit("\n");
    assert("\n"@ =~= seq!['\n']);
    assert forall|i: int| 0 <= i < row.len() implies row[i] != '\n' by {
        if i < key.len() {
            assert(key.contains(key[i]));
        } else {
            assert(value.contains(value[i - key.len()]));
        }
    }
    assert(entry(key, value) + rest =~= row.push('\n') + rest);
    lemma_pieces_concat(row, '\n', rest, at('\n'));
    law_uncut_text_is_one_piece(row, at('\n'));
}

proof fn lemma_value_next(row: Seq<char>, rows: Seq<Seq<char>>, key: Seq<char>)
    ensures
        key.is_prefix_of(row) ==> value_in(seq![row] + rows, key) == Some(
            row.skip(key.len() as int),
        ),
        !key.is_prefix_of(row) ==> value_in(seq![row] + rows, key) == value_in(rows, key),
{
    assert((seq![row] + rows).drop_first() =~= rows);
}

proof fn lemma_own_key(key: Seq<char>, value: Seq<char>)
    ensures
        key.is_prefix_of(key + value),
        (key + value).skip(key.len() as int) == value,
{
    assert((key + value).subrange(0, key.len() as int) =~= key);
    assert((key + value).skip(key.len() as int) =~= value);
}

proof fn lemma_other_key(key: Seq<char>, value: Seq<char>, other: Seq<char>, i: int)
    requires
        0 <= i < key.len(),
        i < other.len(),
        key[i] != other[i],
    ensures
        !other.is_prefix_of(key + value),
{
    assert((key + value)[i] == key[i]);
    if other.is_prefix_of(key + value) {
        assert((key + value).subrange(0, other.len() as int)[i] == (key + value)[i]);
    }
}

proof fn lemma_keys()
    ensures
        !"CUPROF_OUTPUT="@.contains('\n'),
        !"CUPROF_DURATION="@.contains('\n'),
        !"CUPROF_VERBOSE="@.contains('\n'),
        !"CUPROF_SOCKET="@.contains('\n'),
        !"1"@.contains('\n'),
        "CUPROF_OUTPUT="@.len() > 7 && "CUPROF_OUTPUT="@[7] == 'O',
        "CUPROF_DURATION="@.len() > 7 && "CUPROF_DURATION="@[7] == 'D',
        "CUPROF_VERBOSE="@.len() > 7 && "CUPROF_VERBOSE="@[7] == 'V',
        "CUPROF_SOCKET="@.len() > 7 && "CUPROF_SOCKET="@[7] == 'S',
{
    reveal_strlit("CUPROF_OUTPUT=");
    reveal_strlit("CUPROF_DURATION=");
    reveal_strlit("CUPROF_VERBOSE=");
    reveal_strlit("CUPROF_SOCKET=");
    reveal_strlit("1");
}

/// A line that may be there does not hide the lines after it.
proof fn lemma_given_entry(
    yes: bool,
    key: Seq<char>,
    value: Seq<char>,
    rest: Seq<char>,
    wanted: Seq<char>,
)
    requires
        !key.contains('\n'),
        !value.contains('\n'),
        key.len() > 7,
        wanted.len() > 7,
        wanted == key || wanted[7] != key[7],
    ensures
        value_in(lines(given(yes, entry(key, value)) + rest), wanted) == (if yes && wanted == key {
            Some(value)
        } else {
            value_in(lines(rest), wanted)
        }),
{
    if yes {
        lemma_entry_lines(key, value, rest);
        lemma_value_next(key + value, lines(rest), wanted);
        lemma_own_key(key, value);
        if wanted != key {
            lemma_other_key(key, value, wanted, 7);
        }
    } else {
        assert(Seq::<char>::empty() + rest =~= rest);
    }
}

proof fn lemma_config_value(config: Config, wanted: Seq<char>)
    requires
        !config.output.contains('\n'),
        !config.socket_path.contains('\n'),
        wanted == "CUPROF_OUTPUT="@ || wanted == "CUPROF_DURATION="@ || wanted
            == "CUPROF_VERBOSE="@ || wanted == "CUPROF_SOCKET="@,
    ensures
        value_in(lines(config_text(config)), wanted) == (if wanted == "CUPROF_OUTPUT="@ {
            Some(config.output)
        } else if wanted == "CUPROF_DURATION="@ {
            if config.duration_sec > 0 {
                Some(dec(config.duration_sec as nat))
            } else {
                None
            }
        } else if wanted == "CUPROF_VERBOSE="@ {
            if config.verbose {
                Some("1"@)
            } else {
                None
            }
        } else if config.socket_path.len() > 0 {
            Some(config.socket_path)
        } else {
            None
        }),
{
    lemma_keys();
    lemma_numeral(config.duration_sec as nat, 10);
    let seconds = dec(config.duration_sec as nat);
    assert(!seconds.contains('\n')) by {
        assert forall|i: int| 0 <= i < seconds.len() implies seconds[i] != '\n' by {
            assert('0' <= seconds[i] <= '9');
        }
    }
    let first = given(true, entry("CUPROF_OUTPUT="@, config.output));
    let second = given(config.duration_sec > 0, entry("CUPROF_DURATION="@, seconds));
    let third = given(config.verbose, entry("CUPROF_VERBOSE="@, "1"@));
    let fourth = given(
        config.socket_path.len() > 0,
        entry("CUPROF_SOCKET="@, config.socket_path),
    );
    let nothing = Seq::<char>::empty();
    assert(config_text(config) =~= first + (second + (third + (fourth + nothing))));
    lemma_given_entry(
        true,
        "CUPROF_OUTPUT="@,
        config.output,
        second + (third + (fourth + nothing)),
        wanted,
    );
    lemma_given_entry(
        config.duration_sec > 0,
        "CUPROF_DURATION="@,
        seconds,
        third + (fourth + nothing),
        wanted,
    );
    lemma_given_entry(config.verbose, "CUPROF_VERBOSE="@, "1"@, fourth + nothing, wanted);
    lemma_given_entry(
        config.socket_path.len() > 0,
        "CUPROF_SOCKET="@,
        config.socket_path,
        nothing,
        wanted,
    );
    assert(lines(nothing) =~= seq![nothing]);
    assert(!wanted.is_prefix_of(nothing));
    lemma_value_next(nothing, Seq::empty(), wanted);
    assert(seq![nothing] + Seq::<Seq<char>>::empty() =~= seq![nothing]);
}

/// A configuration file gives each key the value of its field, and no value where
/// the field was not given. A path with a line feed in it cannot be written down.
pub proof fn law_config_reads_back(config: Config)
    requires
        !config.output.contains('\n'),
        !config.socket_path.contains('\n'),
    ensures
        value_in(lines(config_text(config)), "CUPROF_OUTPUT="@) == Some(config.output),
        value_in(lines(config_text(config)), "CUPROF_DURATION="@) == (if config.duration_sec > 0 {
            Some(dec(config.duration_sec as nat))
        } else {
            None
        }),
        value_in(lines(config_text(config)), "CUPROF_VERBOSE="@) == (if config.verbose {
            Some("1"@)
        } else {
            None
        }),
        value_in(lines(config_text(config)), "CUPROF_SOCKET="@) == (if config.socket_path.len()
            > 0 {
            Some(config.socket_path)
        } else {
            None
        }),
{
    lemma_keys();
    lemma_config_value(config, "CUPROF_OUTPUT="@);
    lemma_config_value(config, "CUPROF_DURATION="@);
    lemma_config_value(config, "CUPROF_VERBOSE="@);
    lemma_config_value(config, "CUPROF_SOCKET="@);
}

proof fn lemma_given_lines(yes: bool, key: Seq<char>, value: Seq<char>, rest: Seq<char>)
    requires
        !key.contains('\n'),
        !value.contains('\n'),
    ensures
        lines(given(yes, entry(key, value)) + rest).len() == lines(rest).len() + (if yes {
            1int
        } else {
            0int
        }),
{
    if yes {
        lemma_entry_lines(key, value, rest);
    } else {
        assert(Seq::<char>::empty() + rest =~= rest);
    }
}

/// A configuration file has a line for each field that was given, and no other. (What
/// follows the last line feed counts as a line, and is empty.)
pub proof fn law_a_config_has_no_other_lines(config: Config)
    requires
        !config.output.contains('\n'),
        !config.socket_path.contains('\n'),
    ensures
        lines(config_text(config)).len() == 2 + (if config.duration_sec > 0 {
            1int
        } else {
            0int
        }) + (if config.verbose {
            1int
        } else {
            0int
        }) + (if config.socket_path.len() > 0 {
            1int
        } else {
            0int
        }),
        lines(config_text(config)).last().len() == 0,
{
    lemma_keys();
    lemma_numeral(config.duration_sec as nat, 10);
    let seconds = dec(config.duration_sec as nat);
    assert(!seconds.contains('\n')) by {
        assert forall|i: int| 0 <= i < seconds.len() implies seconds[i] != '\n' by {
            assert('0' <= seconds[i] <= '9');
        }
    }
    let first = given(true, entry("CUPROF_OUTPUT="@, config.output));
    let second = given(config.duration_sec > 0, entry("CUPROF_DURATION="@, seconds));
    let third = given(config.verbose, entry("CUPROF_VERBOSE="@, "1"@));
    let fourth = given(
        config.socket_path.len() > 0,
        entry("CUPROF_SOCKET="@, config.socket_path),
    );
    let nothing = Seq::<char>::empty();
    let text = config_text(config);
    assert(text =~= first + (second + (third + (fourth + nothing))));
    lemma_given_lines(
        true,
        "CUPROF_OUTPUT="@,
        config.output,
        second + (third + (fourth + nothing)),
    );
    lemma_given_lines(
        config.duration_sec > 0,
        "CUPROF_DURATION="@,
        seconds,
        third + (fourth + nothing),
    );
    lemma_given_lines(config.verbose, "CUPROF_VERBOSE="@, "1"@, fourth + nothing);
    lemma_given_lines(
        config.socket_path.len() > 0,
        "CUPROF_SOCKET="@,
        config.socket_path,
        nothing,
    );
    assert(lines(nothing) =~= seq![nothing]);
    reveal_strlit("\n");
    assert("\n"@ =~= seq!['\n']);
    assert(text.len() > 0 && text.last() == '\n');
    assert(text =~= text.drop_last().push('\n') + nothing);
    lemma_pieces_concat(text.drop_last(), '\n', nothing, at('\n'));
}

/// Each field that is given adds its line to what there would be without it, and
/// takes nothing away, whatever the others hold.
pub proof fn law_each_field_adds_its_line(config: Config)
    ensures
        ({
            let seconds = Config { verbose: false, socket_path: Seq::empty(), ..config };
            let bare = Config { duration_sec: 0, ..seconds };
            let loud = Config { verbose: true, ..seconds };
            let silent = Config { socket_path: Seq::empty(), ..config };
            &&& config_text(bare) == "CUPROF_OUTPUT="@ + config.output + "\n"@
            &&& config.duration_sec > 0 ==> config_text(seconds) == config_text(bare) + (
            "CUPROF_DURATION="@ + dec(config.duration_sec as nat) + "\n"@)
            &&& config_text(loud) == config_text(seconds) + "CUPROF_VERBOSE=1\n"@
            &&& config.socket_path.len() > 0 ==> config_text(config) == config_text(silent) + (
            "CUPROF_SOCKET="@ + config.socket_path + "\n"@)
        }),
{
    reveal_strlit("CUPROF_VERBOSE=");
    reveal_strlit("1");
    reveal_strlit("\n");
    reveal_strlit("CUPROF_VERBOSE=1\n");
    assert(entry("CUPROF_VERBOSE="@, "1"@) =~= "CUPROF_VERBOSE=1\n"@);
    let seconds = Config { verbose: false, socket_path: Seq::empty(), ..config };
    let bare = Config { duration_sec: 0, ..seconds };
    let loud = Config { verbose: true, ..seconds };
    let silent = Config { socket_path: Seq::empty(), ..config };
    assert(config_text(bare) =~= "CUPROF_OUTPUT="@ + config.output + "\n"@);
    if config.duration_sec > 0 {
        assert(config_text(seconds) =~= config_text(bare) + ("CUPROF_DURATION="@ + dec(
            config.duration_sec as nat,
        ) + "\n"@));
    }
    assert(config_text(loud) =~= config_text(seconds) + "CUPROF_VERBOSE=1\n"@);
    if config.socket_path.len() > 0 {
        assert(config_text(config) =~= config_text(silent) + ("CUPROF_SOCKET="@
            + config.socket_path + "\n"@));
    }
}

/// What switches on and what switches off: four words each, and nothing does both.
pub proof fn law_switches(t: Seq<char>)
    ensures
        switches_on(t) <==> t == "1"@ || t == "true"@ || t == "yes"@ || t == "on"@,
        switches_off(t) <==> t == "0"@ || t == "false"@ || t == "no"@ || t == "off"@,
        !(switches_on(t) && switches_off(t)),
{
    reveal_strlit("1");
    reveal_strlit("true");
    reveal_strlit("yes");
    reveal_strlit("on");
    reveal_strlit("0");
    reveal_strlit("false");
    reveal_strlit("no");
    reveal_strlit("off");
    assert("1"@[0] == '1' && "0"@[0] == '0');
    assert("true"@[0] == 't' && "false"@[0] == 'f');
    assert("yes"@[0] == 'y' && "no"@[0] == 'n');
    assert("on"@[1] == 'n' && "off"@[1] == 'f' && "no"@[1] == 'o');
}

/// Where the files of a target are: its configuration under the PID that it has in
/// its own namespace, and its trace and its socket under the PID from outside.
pub proof fn law_where_the_files_of_a_target_are(pid: i32, container_pid: i32)
    ensures
        config_file(pid, container_pid) == "/proc/"@ + decimal(pid as int) + "/root"@
            + "/tmp/cuprof_"@ + decimal(container_pid as int) + ".cfg"@,
        trace_name(pid) == "AIProf_"@ + decimal(pid as int) + "_cupti.json"@,
        trace_inside(pid) == "/tmp"@ + "/"@ + ("AIProf_"@ + decimal(pid as int) + "_cupti.json"@),
        trace_outside(pid) == "/proc/"@ + decimal(pid as int) + "/root"@ + ("/tmp"@ + "/"@ + (
        "AIProf_"@ + decimal(pid as int) + "_cupti.json"@)),
        socket_inside(pid) == "/tmp/.cf_sock_"@ + decimal(pid as int),
{
}

/// The text that cuprof reads a collection window from.
pub fn cuprof_config_content(config: &CuprofConfig) -> (r: String)
    ensures
        r@ == config_text(config@),
{
    let mut content = "CUPROF_OUTPUT=".to_owned();
    content.append(config.output.as_str());
    content.append("\n");
    let ghost first = content@;
    if config.duration_sec > 0 {
        content.append("CUPROF_DURATION=");
        push_dec(&mut content, config.duration_sec as u64);
        content.append("\n");
    }
    let ghost second = given(
        config.duration_sec > 0,
        entry("CUPROF_DURATION="@, dec(config.duration_sec as nat)),
    );
    assert(content@ =~= first + second);
    if config.verbose {
        content.append("CUPROF_VERBOSE=");
        content.append("1");
        content.append("\n");
    }
    let ghost third = given(config.verbose, entry("CUPROF_VERBOSE="@, "1"@));
    assert(content@ =~= first + second + third);
    if !config.socket_path.as_str().is_empty() {
        content.append("CUPROF_SOCKET=");
        content.append(config.socket_path.as_str());
        content.append("\n");
    }
    assert(content@ =~= config_text(config@));
    content
}

/// Whether a setting, in small letters, is one of the four that switch on.
pub open spec fn switches_on(t: Seq<char>) -> bool {
    t == "1"@ || t == "true"@ || t == "yes"@ || t == "on"@
}

/// Whether a setting, in small letters, is one of the four that switch off.
pub open spec fn switches_off(t: Seq<char>) -> bool {
    t == "0"@ || t == "false"@ || t == "no"@ || t == "off"@
}

/// Whether the variable `AIPROF_CUPTI_VERBOSE` asks for diagnostics. They go to
/// the standard error of the target, which is not ours, so nothing but a plain
/// yes switches them on.
pub fn cuprof_verbose_from_env(raw: Option<&str>) -> (r: bool)
    ensures
        r == switches_on(lower(setting(raw))),
{
    let value: &str = read_setting(raw);
    same_lowered(value, "1") || same_lowered(value, "true") || same_lowered(value, "yes")
        || same_lowered(value, "on")
}

/// Whether the variable `AIPROF_CUPTI_VERBOSE` is unset, empty, or something that
/// [`cuprof_verbose_from_env`] understands. What is not is worth a warning: a
/// switch that swallows a typo looks like one that is on.
pub fn recognises_verbose(raw: Option<&str>) -> (r: bool)
    ensures
        r == ({
            let t = setting(raw);
            t.len() == 0 || switches_on(lower(t)) || switches_off(lower(t))
        }),
{
    let value: &str = read_setting(raw);
    value.is_empty() || same_lowered(value, "1") || same_lowered(value, "true") || same_lowered(
        value,
        "yes",
    ) || same_lowered(value, "on") || same_lowered(value, "0") || same_lowered(value, "false")
        || same_lowered(value, "no") || same_lowered(value, "off")
}

/// The configuration file of a process, which looks for it under the PID that it
/// has in its own namespace.
pub open spec fn config_file(pid: i32, container_pid: i32) -> Seq<char> {
    root_of(pid) + "/tmp/cuprof_"@ + decimal(container_pid as int) + ".cfg"@
}

/// The name of the trace of a process.
pub open spec fn trace_name(pid: i32) -> Seq<char> {
    DEFAULT_PREFIX@ + decimal(pid as int) + "_cupti.json"@
}

/// The trace of a process, as the process sees it.
pub open spec fn trace_inside(pid: i32) -> Seq<char> {
    DEFAULT_PATH@ + "/"@ + trace_name(pid)
}

/// The trace of a process, as seen from outside its container.
pub open spec fn trace_outside(pid: i32) -> Seq<char> {
    root_of(pid) + trace_inside(pid)
}

/// The lifecycle socket of a process, as the process sees it.
pub open spec fn socket_inside(pid: i32) -> Seq<char> {
    CF_UNIXSOCK@ + decimal(pid as int)
}

/// The collector and the listener meet: the socket that the process is told of is
/// the one that is bound, seen from inside.
pub proof fn law_both_ends_meet_on_one_socket(pid: i32)
    ensures
        socket_under(root_of(pid), pid) == root_of(pid) + socket_inside(pid),
{
    assert(socket_under(root_of(pid), pid) =~= root_of(pid) + socket_inside(pid));
}

/// The configuration file of a process.
pub fn cuprof_config_path(pid: i32, container_pid: i32) -> (r: String)
    ensures
        r@ == config_file(pid, container_pid),
{
    let mut path = UnixSocketHandler::proc_root(pid);
    path.append("/tmp/cuprof_");
    push_decimal(&mut path, container_pid);
    path.append(".cfg");
    path
}

/// The name of the trace of a process.
pub fn cuprof_trace_name(pid: i32) -> (r: String)
    ensures
        r@ == trace_name(pid),
{
    let mut name = DEFAULT_PREFIX.to_owned();
    push_decimal(&mut name, pid);
    name.append("_cupti.json");
    name
}

/// The trace of a process, as the process sees it.
pub fn cuprof_trace_inside(pid: i32) -> (r: String)
    ensures
        r@ == trace_inside(pid),
{
    let mut path = DEFAULT_PATH.to_owned();
    path.append("/");
    path.append(cuprof_trace_name(pid).as_str());
    path
}

/// The trace of a process, as seen from outside its container.
pub fn cuprof_trace_outside(pid: i32) -> (r: String)
    ensures
        r@ == trace_outside(pid),
{
    let mut path = UnixSocketHandler::proc_root(pid);
    path.append(cuprof_trace_inside(pid).as_str());
    path
}

/// The lifecycle socket of a process, as the process sees it.
pub fn cuprof_socket_inside(pid: i32) -> (r: String)
    ensures
        r@ == socket_inside(pid),
{
    let mut path = CF_UNIXSOCK.to_owned();
    push_decimal(&mut path, pid);
    path
}

} // verus!
