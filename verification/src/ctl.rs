//! The control client: the request line that a command line asks for.
//!
//! A request is one JSON object on one line. Commands read as phrases:
//! `dispatch toggle floating 42`.
use crate::platform::PlatformKind;
use crate::text::{
    contains, decimal, decimal_signed, has_part, joined, lemma_split_once, parse_i64, parse_u32, parse_u64, quoted,
    quoted_of, same, signed_of, split_at_first, split_once, unsigned_of, views, write_i64, write_u64,
};
use vstd::prelude::*;

verus! {

/// A request line, or what is wrong with the command line.
pub type Outcome = Result<Seq<char>, Seq<char>>;

pub open spec fn outcome(r: Result<String, String>) -> Outcome {
    match r {
        Ok(line) => Ok(line@),
        Err(message) => Err(message@),
    }
}

// ---- Pieces ----------------------------------------------------------------

/// The word at a position, if there are so many.
pub open spec fn word(args: Seq<Seq<char>>, i: int) -> Option<Seq<char>> {
    if 0 <= i < args.len() {
        Some(args[i])
    } else {
        None
    }
}

/// A request for a command, with further fields.
pub open spec fn request(command: Seq<char>, fields: Seq<char>) -> Seq<char> {
    "{\"cmd\":\""@ + command + "\""@ + fields + "}"@
}

/// A further field, its value as JSON.
pub open spec fn field(key: Seq<char>, value: Seq<char>) -> Seq<char> {
    ",\""@ + key + "\":"@ + value
}

/// A text in quotes as it is.
pub open spec fn in_quotes(s: Seq<char>) -> Seq<char> {
    "\""@ + s + "\""@
}

pub open spec fn truth(b: bool) -> Seq<char> {
    if b {
        "true"@
    } else {
        "false"@
    }
}

/// The number at a position; what to say if there is no word, or no number.
pub open spec fn number_at(args: Seq<Seq<char>>, i: int, missing: Seq<char>, bad: Seq<char>) -> Result<nat, Seq<char>> {
    match word(args, i) {
        Some(s) => match unsigned_of(s, u64::MAX as nat) {
            Some(n) => Ok(n),
            None => Err(bad),
        },
        None => Err(missing),
    }
}

/// The same for a number with a sign.
pub open spec fn signed_at(args: Seq<Seq<char>>, i: int, missing: Seq<char>, bad: Seq<char>) -> Result<int, Seq<char>> {
    match word(args, i) {
        Some(s) => match signed_of(s) {
            Some(n) => Ok(n),
            None => Err(bad),
        },
        None => Err(missing),
    }
}

/// The id at a position.
pub open spec fn id_at(args: Seq<Seq<char>>, i: int) -> Result<nat, Seq<char>> {
    number_at(args, i, "dispatch needs an id"@, "id must be a number"@)
}

/// A request with an id, if there is one at the position.
pub open spec fn with_id(command: Seq<char>, args: Seq<Seq<char>>, i: int) -> Outcome {
    match id_at(args, i) {
        Ok(id) => Ok(request(command, field("id"@, decimal(id)))),
        Err(message) => Err(message),
    }
}

/// How a monitor is named in a request: by its id where the word is a number,
/// and by its name otherwise.
pub open spec fn target_field(target: Seq<char>) -> Seq<char> {
    match unsigned_of(target, u64::MAX as nat) {
        Some(id) => field("id"@, decimal(id)),
        None => field("name"@, in_quotes(target)),
    }
}

/// What the actions of `dispatch` are.
pub open spec fn usage_hint() -> Seq<char> {
    "expected one of: focus, close, lock, toggle visibility/maximize/fullscreen/floating/pinned, move window/workspace, activate workspace, cycle keyboard layout, pin input, unpin input"@
}

fn hint() -> (r: &'static str)
    ensures
        r@ == usage_hint(),
{
    "expected one of: focus, close, lock, toggle visibility/maximize/fullscreen/floating/pinned, move window/workspace, activate workspace, cycle keyboard layout, pin input, unpin input"
}

fn text3(a: &str, b: &str, c: &str) -> (r: String)
    ensures
        r@ == a@ + b@ + c@,
{
    joined(joined(a, b).as_str(), c)
}

fn request_line(command: &str, fields: &str) -> (r: String)
    ensures
        r@ == request(command@, fields@),
{
    joined(joined(text3("{\"cmd\":\"", command, "\"").as_str(), fields).as_str(), "}")
}

fn field_of(key: &str, value: &str) -> (r: String)
    ensures
        r@ == field(key@, value@),
{
    joined(text3(",\"", key, "\":").as_str(), value)
}

fn truth_of(b: bool) -> (r: &'static str)
    ensures
        r@ == truth(b),
{
    if b {
        "true"
    } else {
        "false"
    }
}

fn word_at(args: &[String], i: usize) -> (r: Option<&str>)
    ensures
        (match r {
            Some(s) => Some(s@),
            None => None,
        }) == word(views(args@), i as int),
{
    if i < args.len() {
        assert(views(args@)[i as int] == args@[i as int]@);
        Some(args[i].as_str())
    } else {
        None
    }
}

/// Whether the word at a position is the one given.
fn is_word(args: &[String], i: usize, wanted: &str) -> (r: bool)
    ensures
        r == (word(views(args@), i as int) == Some(wanted@)),
{
    match word_at(args, i) {
        Some(s) => same(s, wanted),
        None => false,
    }
}

fn number(args: &[String], i: usize, missing: &str, bad: &str) -> (r: Result<u64, String>)
    ensures
        match r {
            Ok(n) => number_at(views(args@), i as int, missing@, bad@) == Ok::<nat, Seq<char>>(n as nat),
            Err(m) => number_at(views(args@), i as int, missing@, bad@) == Err::<nat, Seq<char>>(m@),
        },
{
    match word_at(args, i) {
        Some(s) => match parse_u64(s) {
            Some(n) => Ok(n),
            None => Err(bad.to_string()),
        },
        None => Err(missing.to_string()),
    }
}

fn signed(args: &[String], i: usize, missing: &str, bad: &str) -> (r: Result<i64, String>)
    ensures
        match r {
            Ok(n) => signed_at(views(args@), i as int, missing@, bad@) == Ok::<int, Seq<char>>(n as int),
            Err(m) => signed_at(views(args@), i as int, missing@, bad@) == Err::<int, Seq<char>>(m@),
        },
{
    match word_at(args, i) {
        Some(s) => match parse_i64(s) {
            Some(n) => Ok(n),
            None => Err(bad.to_string()),
        },
        None => Err(missing.to_string()),
    }
}

fn id_of(args: &[String], i: usize) -> (r: Result<u64, String>)
    ensures
        match r {
            Ok(n) => id_at(views(args@), i as int) == Ok::<nat, Seq<char>>(n as nat),
            Err(m) => id_at(views(args@), i as int) == Err::<nat, Seq<char>>(m@),
        },
{
    number(args, i, "dispatch needs an id", "id must be a number")
}

fn request_with_id(command: &str, args: &[String], i: usize) -> (r: Result<String, String>)
    ensures
        outcome(r) == with_id(command@, views(args@), i as int),
{
    match id_of(args, i) {
        Ok(id) => Ok(request_line(command, field_of("id", write_u64(id).as_str()).as_str())),
        Err(message) => Err(message),
    }
}

fn name_target(word: &str) -> (r: String)
    ensures
        r@ == target_field(word@),
{
    match parse_u64(word) {
        Some(id) => field_of("id", write_u64(id).as_str()),
        None => field_of("name", text3("\"", word, "\"").as_str()),
    }
}

// ---- Actions ---------------------------------------------------------------

/// The command that toggles something, if a word names one.
pub open spec fn toggle_command(noun: Seq<char>) -> Option<Seq<char>> {
    if noun == "visibility"@ || noun == "maximize"@ || noun == "fullscreen"@ || noun == "floating"@ || noun
        == "pinned"@ {
        Some("toggle_"@ + noun)
    } else {
        None
    }
}

pub open spec fn toggle(args: Seq<Seq<char>>) -> Outcome {
    match word(args, 1) {
        Some(noun) => match toggle_command(noun) {
            Some(command) => with_id(command, args, 2),
            None => Err("unknown 'toggle' target '"@ + noun + "' - "@ + usage_hint()),
        },
        None => Err("'toggle' needs a target: visibility, maximize, fullscreen, floating, or pinned"@),
    }
}

fn build_toggle(args: &[String]) -> (r: Result<String, String>)
    ensures
        outcome(r) == toggle(views(args@)),
{
    match word_at(args, 1) {
        Some(noun) => {
            if same(noun, "visibility") || same(noun, "maximize") || same(noun, "fullscreen") || same(noun, "floating")
                || same(noun, "pinned") {
                request_with_id(joined("toggle_", noun).as_str(), args, 2)
            } else {
                Err(joined(text3("unknown 'toggle' target '", noun, "' - ").as_str(), hint()))
            }
        },
        None => Err("'toggle' needs a target: visibility, maximize, fullscreen, floating, or pinned".to_string()),
    }
}

/// Whether a word is a direction.
pub open spec fn is_direction(s: Seq<char>) -> bool {
    s == "left"@ || s == "right"@ || s == "up"@ || s == "down"@
}

/// Moves window `id` in the direction that follows.
pub open spec fn move_window(args: Seq<Seq<char>>, id: nat) -> Outcome {
    match word(args, 3) {
        Some(direction) => if is_direction(direction) {
            Ok(
                request(
                    "move_window"@,
                    field("id"@, decimal(id)) + field("direction"@, in_quotes(direction)),
                ),
            )
        } else {
            Err("direction must be one of: left, right, up, down (got '"@ + direction + "')"@)
        },
        None => Err("'move window' needs a direction (left/right/up/down)"@),
    }
}

/// Moves window `id` to the workspace that follows.
pub open spec fn move_to_workspace(args: Seq<Seq<char>>, id: nat) -> Outcome {
    match number_at(args, 3, "'move workspace' needs a target workspace"@, "workspace must be a number"@) {
        Ok(workspace) => Ok(
            request(
                "move_to_workspace"@,
                field("id"@, decimal(id)) + field("workspace"@, decimal(workspace)),
            ),
        ),
        Err(message) => Err(message),
    }
}

pub open spec fn relocate(args: Seq<Seq<char>>) -> Outcome {
    match word(args, 1) {
        Some(noun) => match id_at(args, 2) {
            Ok(id) => if noun == "window"@ {
                move_window(args, id)
            } else if noun == "workspace"@ {
                move_to_workspace(args, id)
            } else {
                Err("unknown 'move' target '"@ + noun + "' - "@ + usage_hint())
            },
            Err(message) => Err(message),
        },
        None => Err("'move' needs a target: window or workspace"@),
    }
}

fn build_move_window(args: &[String], id: u64) -> (r: Result<String, String>)
    ensures
        outcome(r) == move_window(views(args@), id as nat),
{
    match word_at(args, 3) {
        Some(direction) => {
            if same(direction, "left") || same(direction, "right") || same(direction, "up") || same(direction, "down") {
                let fields = joined(
                    field_of("id", write_u64(id).as_str()).as_str(),
                    field_of("direction", text3("\"", direction, "\"").as_str()).as_str(),
                );
                Ok(request_line("move_window", fields.as_str()))
            } else {
                Err(text3("direction must be one of: left, right, up, down (got '", direction, "')"))
            }
        },
        None => Err("'move window' needs a direction (left/right/up/down)".to_string()),
    }
}

fn build_move_to_workspace(args: &[String], id: u64) -> (r: Result<String, String>)
    ensures
        outcome(r) == move_to_workspace(views(args@), id as nat),
{
    match number(args, 3, "'move workspace' needs a target workspace", "workspace must be a number") {
        Ok(workspace) => {
            let fields = joined(
                field_of("id", write_u64(id).as_str()).as_str(),
                field_of("workspace", write_u64(workspace).as_str()).as_str(),
            );
            Ok(request_line("move_to_workspace", fields.as_str()))
        },
        Err(message) => Err(message),
    }
}

fn build_move(args: &[String]) -> (r: Result<String, String>)
    ensures
        outcome(r) == relocate(views(args@)),
{
    match word_at(args, 1) {
        Some(noun) => match id_of(args, 2) {
            Ok(id) => {
                if same(noun, "window") {
                    build_move_window(args, id)
                } else if same(noun, "workspace") {
                    build_move_to_workspace(args, id)
                } else {
                    Err(joined(text3("unknown 'move' target '", noun, "' - ").as_str(), hint()))
                }
            },
            Err(message) => Err(message),
        },
        None => Err("'move' needs a target: window or workspace".to_string()),
    }
}

/// Puts a monitor where the words say.
pub open spec fn output_position(args: Seq<Seq<char>>, monitor: Seq<char>) -> Outcome {
    match signed_at(args, 4, "'set output position' needs an x coordinate"@, "x must be a number"@) {
        Ok(x) => match signed_at(args, 5, "'set output position' needs a y coordinate"@, "y must be a number"@) {
            Ok(y) => Ok(
                request(
                    "set_output_position"@,
                    target_field(monitor) + field("x"@, decimal_signed(x)) + field("y"@, decimal_signed(y)),
                ),
            ),
            Err(message) => Err(message),
        },
        Err(message) => Err(message),
    }
}

/// Turns a monitor on or off.
pub open spec fn output_enabled(args: Seq<Seq<char>>, monitor: Seq<char>) -> Outcome {
    match word(args, 4) {
        Some(s) => if s == "true"@ || s == "false"@ {
            Ok(request("set_output_enabled"@, target_field(monitor) + field("enabled"@, truth(s == "true"@))))
        } else {
            Err("'set output enabled' needs true or false"@)
        },
        None => Err("'set output enabled' needs true or false"@),
    }
}

/// Divides a monitor: in columns, unless rows are asked for.
pub open spec fn output_split(args: Seq<Seq<char>>, monitor: Seq<char>) -> Outcome {
    match number_at(args, 4, "'set output split' needs a part count"@, "parts must be a number"@) {
        Ok(parts) => match word(args, 5) {
            Some(s) => if s == "columns"@ || s == "rows"@ {
                Ok(split_request(monitor, parts, s == "rows"@))
            } else {
                Err("'set output split' direction must be 'rows' or 'columns', got '"@ + s + "'"@)
            },
            None => Ok(split_request(monitor, parts, false)),
        },
        Err(message) => Err(message),
    }
}

pub open spec fn split_request(monitor: Seq<char>, parts: nat, rows: bool) -> Seq<char> {
    request(
        "set_monitor_split"@,
        target_field(monitor) + field("parts"@, decimal(parts)) + field("rows"@, truth(rows)),
    )
}

pub open spec fn set_output(args: Seq<Seq<char>>) -> Outcome {
    if word(args, 1) != Some("output"@) {
        Err("'set' only supports 'output position'/'output enabled'/'output split' - "@ + usage_hint())
    } else {
        match word(args, 2) {
            Some(noun) => match word(args, 3) {
                Some(monitor) => if noun == "position"@ {
                    output_position(args, monitor)
                } else if noun == "enabled"@ {
                    output_enabled(args, monitor)
                } else if noun == "split"@ {
                    output_split(args, monitor)
                } else {
                    Err("unknown 'set output' target '"@ + noun + "' - "@ + usage_hint())
                },
                None => Err("'set output' needs a monitor name or id"@),
            },
            None => Err("'set output' needs a target: position, enabled or split"@),
        }
    }
}

fn build_output_position(args: &[String], monitor: &str) -> (r: Result<String, String>)
    ensures
        outcome(r) == output_position(views(args@), monitor@),
{
    match signed(args, 4, "'set output position' needs an x coordinate", "x must be a number") {
        Ok(x) => match signed(args, 5, "'set output position' needs a y coordinate", "y must be a number") {
            Ok(y) => {
                let fields = text3(
                    name_target(monitor).as_str(),
                    field_of("x", write_i64(x).as_str()).as_str(),
                    field_of("y", write_i64(y).as_str()).as_str(),
                );
                Ok(request_line("set_output_position", fields.as_str()))
            },
            Err(message) => Err(message),
        },
        Err(message) => Err(message),
    }
}

fn build_output_enabled(args: &[String], monitor: &str) -> (r: Result<String, String>)
    ensures
        outcome(r) == output_enabled(views(args@), monitor@),
{
    match word_at(args, 4) {
        Some(s) => {
            let on: bool = same(s, "true");
            if on || same(s, "false") {
                let fields = joined(name_target(monitor).as_str(), field_of("enabled", truth_of(on)).as_str());
                Ok(request_line("set_output_enabled", fields.as_str()))
            } else {
                Err("'set output enabled' needs true or false".to_string())
            }
        },
        None => Err("'set output enabled' needs true or false".to_string()),
    }
}

fn split_line(monitor: &str, parts: u64, rows: bool) -> (r: String)
    ensures
        r@ == split_request(monitor@, parts as nat, rows),
{
    let fields = text3(
        name_target(monitor).as_str(),
        field_of("parts", write_u64(parts).as_str()).as_str(),
        field_of("rows", truth_of(rows)).as_str(),
    );
    request_line("set_monitor_split", fields.as_str())
}

fn build_output_split(args: &[String], monitor: &str) -> (r: Result<String, String>)
    ensures
        outcome(r) == output_split(views(args@), monitor@),
{
    match number(args, 4, "'set output split' needs a part count", "parts must be a number") {
        Ok(parts) => match word_at(args, 5) {
            Some(s) => {
                let rows: bool = same(s, "rows");
                if rows || same(s, "columns") {
                    Ok(split_line(monitor, parts, rows))
                } else {
                    Err(text3("'set output split' direction must be 'rows' or 'columns', got '", s, "'"))
                }
            },
            None => Ok(split_line(monitor, parts, false)),
        },
        Err(message) => Err(message),
    }
}

fn build_set_output(args: &[String]) -> (r: Result<String, String>)
    ensures
        outcome(r) == set_output(views(args@)),
{
    if !is_word(args, 1, "output") {
        return Err(
            joined("'set' only supports 'output position'/'output enabled'/'output split' - ", hint()),
        );
    }
    match word_at(args, 2) {
        Some(noun) => match word_at(args, 3) {
            Some(monitor) => {
                if same(noun, "position") {
                    build_output_position(args, monitor)
                } else if same(noun, "enabled") {
                    build_output_enabled(args, monitor)
                } else if same(noun, "split") {
                    build_output_split(args, monitor)
                } else {
                    Err(joined(text3("unknown 'set output' target '", noun, "' - ").as_str(), hint()))
                }
            },
            None => Err("'set output' needs a monitor name or id".to_string()),
        },
        None => Err("'set output' needs a target: position, enabled or split".to_string()),
    }
}

/// Adds a monitor without hardware, of the size that follows its name.
pub open spec fn create_monitor(args: Seq<Seq<char>>, name: Seq<char>) -> Outcome {
    match word(args, 3) {
        Some(size) => match split_at_first(size, 'x') {
            Some((w, h)) => match unsigned_of(w, u32::MAX as nat) {
                Some(width) => match unsigned_of(h, u32::MAX as nat) {
                    Some(height) => Ok(
                        request(
                            "create_fake_monitor"@,
                            field("name"@, quoted_of(name)) + field("width"@, decimal(width)) + field(
                                "height"@,
                                decimal(height),
                            ),
                        ),
                    ),
                    None => Err("height must be a number"@),
                },
                None => Err("width must be a number"@),
            },
            None => Err("size must be '<width>x<height>', e.g. 1920x1080"@),
        },
        None => Err("'create fake-monitor' needs a <width>x<height>"@),
    }
}

/// `create` or `remove`, of a monitor without hardware.
pub open spec fn fake_monitor(args: Seq<Seq<char>>, verb: Seq<char>) -> Outcome {
    if word(args, 1) != Some("fake-monitor"@) {
        Err("'"@ + verb + "' only supports 'fake-monitor' - "@ + usage_hint())
    } else {
        match word(args, 2) {
            Some(name) => if verb == "remove"@ {
                Ok(request("remove_fake_monitor"@, field("name"@, quoted_of(name))))
            } else {
                create_monitor(args, name)
            },
            None => Err("'fake-monitor' needs a name"@),
        }
    }
}

/// The request for a monitor without hardware, by its name as JSON.
pub fn create_monitor_line(name: &str, width: u32, height: u32) -> (r: String)
    ensures
        r@ == request(
            "create_fake_monitor"@,
            field("name"@, name@) + field("width"@, decimal(width as nat)) + field("height"@, decimal(height as nat)),
        ),
{
    let fields = text3(
        field_of("name", name).as_str(),
        field_of("width", write_u64(width as u64).as_str()).as_str(),
        field_of("height", write_u64(height as u64).as_str()).as_str(),
    );
    request_line("create_fake_monitor", fields.as_str())
}

/// The request to remove such a monitor, by its name as JSON.
pub fn remove_monitor_line(name: &str) -> (r: String)
    ensures
        r@ == request("remove_fake_monitor"@, field("name"@, name@)),
{
    request_line("remove_fake_monitor", field_of("name", name).as_str())
}

fn build_create_monitor(args: &[String], name: &str) -> (r: Result<String, String>)
    ensures
        outcome(r) == create_monitor(views(args@), name@),
{
    match word_at(args, 3) {
        Some(size) => match split_once(size, 'x') {
            Some((w, h)) => match parse_u32(w.as_str()) {
                Some(width) => match parse_u32(h.as_str()) {
                    Some(height) => Ok(create_monitor_line(quoted(name).as_str(), width, height)),
                    None => Err("height must be a number".to_string()),
                },
                None => Err("width must be a number".to_string()),
            },
            None => Err("size must be '<width>x<height>', e.g. 1920x1080".to_string()),
        },
        None => Err("'create fake-monitor' needs a <width>x<height>".to_string()),
    }
}

fn build_fake_monitor(args: &[String], verb: &str) -> (r: Result<String, String>)
    ensures
        outcome(r) == fake_monitor(views(args@), verb@),
{
    if !is_word(args, 1, "fake-monitor") {
        return Err(joined(text3("'", verb, "' only supports 'fake-monitor' - ").as_str(), hint()));
    }
    match word_at(args, 2) {
        Some(name) => {
            if same(verb, "remove") {
                Ok(remove_monitor_line(quoted(name).as_str()))
            } else {
                build_create_monitor(args, name)
            }
        },
        None => Err("'fake-monitor' needs a name".to_string()),
    }
}

/// `pin` or `unpin`, of the input of a process.
pub open spec fn pin(args: Seq<Seq<char>>, verb: Seq<char>) -> Outcome {
    if word(args, 1) != Some("input"@) {
        Err("'"@ + verb + "' only supports 'input' - "@ + usage_hint())
    } else {
        match signed_at(args, 2, "dispatch needs a pid"@, "pid must be a number"@) {
            Ok(pid) => if verb == "unpin"@ {
                Ok(request("pin_input"@, field("pid"@, decimal_signed(pid))))
            } else {
                match number_at(args, 3, "'pin input' needs a window id"@, "window id must be a number"@) {
                    Ok(id) => Ok(
                        request("pin_input"@, field("pid"@, decimal_signed(pid)) + field("id"@, decimal(id))),
                    ),
                    Err(message) => Err(message),
                }
            },
            Err(message) => Err(message),
        }
    }
}

fn build_pin(args: &[String], verb: &str) -> (r: Result<String, String>)
    ensures
        outcome(r) == pin(views(args@), verb@),
{
    if !is_word(args, 1, "input") {
        return Err(joined(text3("'", verb, "' only supports 'input' - ").as_str(), hint()));
    }
    match signed(args, 2, "dispatch needs a pid", "pid must be a number") {
        Ok(pid) => {
            let process = field_of("pid", write_i64(pid).as_str());
            if same(verb, "unpin") {
                return Ok(request_line("pin_input", process.as_str()));
            }
            match number(args, 3, "'pin input' needs a window id", "window id must be a number") {
                Ok(id) => {
                    let fields = joined(process.as_str(), field_of("id", write_u64(id).as_str()).as_str());
                    Ok(request_line("pin_input", fields.as_str()))
                },
                Err(message) => Err(message),
            }
        },
        Err(message) => Err(message),
    }
}

/// What `dispatch` asks for, by the words behind it.
pub open spec fn dispatch(args: Seq<Seq<char>>) -> Outcome {
    match word(args, 0) {
        Some(verb) => if verb == "focus"@ || verb == "close"@ {
            with_id(verb, args, 1)
        } else if verb == "lock"@ {
            Ok(request("lock"@, ""@))
        } else if verb == "toggle"@ {
            toggle(args)
        } else if verb == "move"@ {
            relocate(args)
        } else if verb == "activate"@ {
            if word(args, 1) == Some("workspace"@) {
                with_id("activate_workspace"@, args, 2)
            } else {
                Err("'activate' only supports 'workspace' - "@ + usage_hint())
            }
        } else if verb == "cycle"@ {
            if word(args, 1) == Some("keyboard"@) && word(args, 2) == Some("layout"@) {
                Ok(request("cycle_keyboard_layout"@, ""@))
            } else {
                Err("'cycle' only supports 'keyboard layout' - "@ + usage_hint())
            }
        } else if verb == "set"@ {
            set_output(args)
        } else if verb == "create"@ || verb == "remove"@ {
            fake_monitor(args, verb)
        } else if verb == "pin"@ || verb == "unpin"@ {
            pin(args, verb)
        } else {
            Err("unknown dispatch action '"@ + verb + "' - "@ + usage_hint())
        },
        None => Err("dispatch needs an action, e.g. 'focus', 'close', 'toggle maximize', 'move window'"@),
    }
}

/// The request that `dispatch` asks for, by the words behind it.
pub fn build_dispatch(args: &[String]) -> (r: Result<String, String>)
    ensures
        outcome(r) == dispatch(views(args@)),
{
    match word_at(args, 0) {
        Some(verb) => {
            if same(verb, "focus") || same(verb, "close") {
                request_with_id(verb, args, 1)
            } else if same(verb, "lock") {
                Ok(request_line("lock", ""))
            } else if same(verb, "toggle") {
                build_toggle(args)
            } else if same(verb, "move") {
                build_move(args)
            } else if same(verb, "activate") {
                if is_word(args, 1, "workspace") {
                    request_with_id("activate_workspace", args, 2)
                } else {
                    Err(joined("'activate' only supports 'workspace' - ", hint()))
                }
            } else if same(verb, "cycle") {
                if is_word(args, 1, "keyboard") && is_word(args, 2, "layout") {
                    Ok(request_line("cycle_keyboard_layout", ""))
                } else {
                    Err(joined("'cycle' only supports 'keyboard layout' - ", hint()))
                }
            } else if same(verb, "set") {
                build_set_output(args)
            } else if same(verb, "create") || same(verb, "remove") {
                build_fake_monitor(args, verb)
            } else if same(verb, "pin") || same(verb, "unpin") {
                build_pin(args, verb)
            } else {
                Err(joined(text3("unknown dispatch action '", verb, "' - ").as_str(), hint()))
            }
        },
        None => Err(
            "dispatch needs an action, e.g. 'focus', 'close', 'toggle maximize', 'move window'".to_string(),
        ),
    }
}

// ---- Other requests --------------------------------------------------------

/// The size of a picture as fields, if one is given.
pub open spec fn size_fields(args: Seq<Seq<char>>) -> Outcome {
    match word(args, 4) {
        Some(size) => match split_at_first(size, 'x') {
            Some((w, h)) => match unsigned_of(w, u64::MAX as nat) {
                Some(width) => match unsigned_of(h, u64::MAX as nat) {
                    Some(height) => Ok(field("width"@, decimal(width)) + field("height"@, decimal(height))),
                    None => Err("height must be a number"@),
                },
                None => Err("width must be a number"@),
            },
            None => Err("size must look like <width>x<height>"@),
        },
        None => Ok(""@),
    }
}

/// A picture of a workspace, written to a file.
pub open spec fn capture(args: Seq<Seq<char>>) -> Outcome {
    if word(args, 1) != Some("workspace"@) {
        Err(
            "'capture' only supports 'workspace' - usage: srd capture workspace <id> <path> [<width>x<height>]"@,
        )
    } else {
        match number_at(args, 2, "capture needs a workspace id"@, "id must be a number"@) {
            Ok(id) => match word(args, 3) {
                Some(path) => match size_fields(args) {
                    Ok(size) => Ok(
                        request(
                            "capture_workspace"@,
                            field("id"@, decimal(id)) + field("path"@, quoted_of(path)) + size,
                        ),
                    ),
                    Err(message) => Err(message),
                },
                None => Err("capture needs an output path"@),
            },
            Err(message) => Err(message),
        }
    }
}

fn build_size_fields(args: &[String]) -> (r: Result<String, String>)
    ensures
        outcome(r) == size_fields(views(args@)),
{
    match word_at(args, 4) {
        Some(size) => match split_once(size, 'x') {
            Some((w, h)) => match parse_u64(w.as_str()) {
                Some(width) => match parse_u64(h.as_str()) {
                    Some(height) => Ok(
                        joined(
                            field_of("width", write_u64(width).as_str()).as_str(),
                            field_of("height", write_u64(height).as_str()).as_str(),
                        ),
                    ),
                    None => Err("height must be a number".to_string()),
                },
                None => Err("width must be a number".to_string()),
            },
            None => Err("size must look like <width>x<height>".to_string()),
        },
        None => Ok("".to_string()),
    }
}

/// The request for a picture of a workspace, by the path as JSON and the fields
/// of the size.
pub fn capture_line(id: u64, path: &str, size: &str) -> (r: String)
    ensures
        r@ == request("capture_workspace"@, field("id"@, decimal(id as nat)) + field("path"@, path@) + size@),
{
    let fields = text3(field_of("id", write_u64(id).as_str()).as_str(), field_of("path", path).as_str(), size);
    request_line("capture_workspace", fields.as_str())
}

fn build_capture(args: &[String]) -> (r: Result<String, String>)
    ensures
        outcome(r) == capture(views(args@)),
{
    if !is_word(args, 1, "workspace") {
        return Err(
            "'capture' only supports 'workspace' - usage: srd capture workspace <id> <path> [<width>x<height>]".to_string(),
        );
    }
    match number(args, 2, "capture needs a workspace id", "id must be a number") {
        Ok(id) => match word_at(args, 3) {
            Some(path) => match build_size_fields(args) {
                Ok(size) => Ok(capture_line(id, quoted(path).as_str(), size.as_str())),
                Err(message) => Err(message),
            },
            None => Err("capture needs an output path".to_string()),
        },
        Err(message) => Err(message),
    }
}

/// Whether a setting is a number.
pub open spec fn is_number_key(key: Seq<char>) -> bool {
    key == "border_width"@ || key == "corner_radius"@ || key == "gap_inner"@ || key == "gap_outer"@
}

/// Whether a setting is true or false.
pub open spec fn is_switch_key(key: Seq<char>) -> bool {
    key == "shadows"@ || key == "rounded_corners"@ || key == "animations"@ || key == "night_light"@ || key
        == "reading_mode"@ || key == "phone_mode"@ || key == "multi_cursor"@
}

/// The value of a setting as JSON: by the setting, not by the value's looks.
pub open spec fn setting(key: Seq<char>, raw: Seq<char>) -> Outcome {
    if is_number_key(key) {
        match unsigned_of(raw, u64::MAX as nat) {
            Some(n) => Ok(decimal(n)),
            None => Err(key + " needs a numeric value"@),
        }
    } else if is_switch_key(key) {
        if raw == "true"@ || raw == "false"@ {
            Ok(raw)
        } else {
            Err(key + " needs 'true' or 'false'"@)
        }
    } else if key == "decoration_mode"@ {
        if raw == "server"@ || raw == "client"@ {
            Ok(quoted_of(raw))
        } else {
            Err(key + " needs 'server' or 'client'"@)
        }
    } else if key == "border_color"@ {
        Ok(quoted_of(raw))
    } else {
        Err("unknown set key '"@ + key + "'"@)
    }
}

/// A live setting.
pub open spec fn set_value(args: Seq<Seq<char>>) -> Outcome {
    match word(args, 1) {
        Some(key) => match word(args, 2) {
            Some(raw) => match setting(key, raw) {
                Ok(value) => Ok(request("set"@, field("key"@, in_quotes(key)) + field("value"@, value))),
                Err(message) => Err(message),
            },
            None => Err("set needs a value"@),
        },
        None => Err(
            "set needs a key (border_width/border_color/corner_radius/gap_inner/gap_outer/shadows/rounded_corners/animations/night_light/reading_mode/phone_mode/multi_cursor/decoration_mode)"@,
        ),
    }
}

fn number_key(key: &str) -> (r: bool)
    ensures
        r == is_number_key(key@),
{
    same(key, "border_width") || same(key, "corner_radius") || same(key, "gap_inner") || same(key, "gap_outer")
}

fn switch_key(key: &str) -> (r: bool)
    ensures
        r == is_switch_key(key@),
{
    same(key, "shadows") || same(key, "rounded_corners") || same(key, "animations") || same(key, "night_light")
        || same(key, "reading_mode") || same(key, "phone_mode") || same(key, "multi_cursor")
}

fn build_setting(key: &str, raw: &str) -> (r: Result<String, String>)
    ensures
        outcome(r) == setting(key@, raw@),
{
    if number_key(key) {
        match parse_u64(raw) {
            Some(n) => Ok(write_u64(n)),
            None => Err(joined(key, " needs a numeric value")),
        }
    } else if switch_key(key) {
        if same(raw, "true") || same(raw, "false") {
            Ok(raw.to_string())
        } else {
            Err(joined(key, " needs 'true' or 'false'"))
        }
    } else if same(key, "decoration_mode") {
        if same(raw, "server") || same(raw, "client") {
            Ok(quoted(raw))
        } else {
            Err(joined(key, " needs 'server' or 'client'"))
        }
    } else if same(key, "border_color") {
        Ok(quoted(raw))
    } else {
        Err(text3("unknown set key '", key, "'"))
    }
}

/// The request for a setting, by its value as JSON.
pub fn setting_line(key: &str, value: &str) -> (r: String)
    ensures
        r@ == request("set"@, field("key"@, in_quotes(key@)) + field("value"@, value@)),
{
    let fields = joined(
        field_of("key", text3("\"", key, "\"").as_str()).as_str(),
        field_of("value", value).as_str(),
    );
    request_line("set", fields.as_str())
}

fn build_set_value(args: &[String]) -> (r: Result<String, String>)
    ensures
        outcome(r) == set_value(views(args@)),
{
    match word_at(args, 1) {
        Some(key) => match word_at(args, 2) {
            Some(raw) => match build_setting(key, raw) {
                Ok(value) => Ok(setting_line(key, value.as_str())),
                Err(message) => Err(message),
            },
            None => Err("set needs a value".to_string()),
        },
        None => Err(
            "set needs a key (border_width/border_color/corner_radius/gap_inner/gap_outer/shadows/rounded_corners/animations/night_light/reading_mode/phone_mode/multi_cursor/decoration_mode)".to_string(),
        ),
    }
}

/// Whether a word is a query by itself.
pub open spec fn is_query(s: Seq<char>) -> bool {
    s == "clients"@ || s == "monitors"@ || s == "workspaces"@ || s == "settings"@ || s == "subscribe"@
}

/// The request line that a command line asks for.
pub open spec fn requested(args: Seq<Seq<char>>) -> Outcome {
    match word(args, 0) {
        Some(first) => if is_query(first) {
            Ok(request(first, ""@))
        } else if first == "keyboard"@ {
            if word(args, 1) == Some("layout"@) {
                Ok(request("keyboard_layout"@, ""@))
            } else {
                Err("did you mean 'srd keyboard layout'?"@)
            }
        } else if first == "dispatch"@ {
            dispatch(args.skip(1))
        } else if first == "capture"@ {
            capture(args)
        } else if first == "set"@ {
            set_value(args)
        } else {
            Err(expected())
        },
        None => Err(expected()),
    }
}

/// What the first word can be.
pub open spec fn expected() -> Seq<char> {
    "expected 'clients', 'monitors', 'workspaces', 'settings', 'keyboard layout', 'subscribe', 'dispatch <action> <id>', 'capture workspace <id> <path>', or 'set <key> <value>'"@
}

/// The request line that a command line asks for, or what is wrong with it.
pub fn build_request(args: &[String]) -> (r: Result<String, String>)
    ensures
        outcome(r) == requested(views(args@)),
{
    if let Some(first) = word_at(args, 0) {
        if same(first, "clients") || same(first, "monitors") || same(first, "workspaces") || same(first, "settings")
            || same(first, "subscribe") {
            return Ok(request_line(first, ""));
        }
        if same(first, "keyboard") {
            return if is_word(args, 1, "layout") {
                Ok(request_line("keyboard_layout", ""))
            } else {
                Err("did you mean 'srd keyboard layout'?".to_string())
            };
        }
        if same(first, "dispatch") {
            let rest = vstd::slice::slice_subrange(args, 1, args.len());
            assert(views(rest@) =~= views(args@).skip(1));
            return build_dispatch(rest);
        }
        if same(first, "capture") {
            return build_capture(args);
        }
        if same(first, "set") {
            return build_set_value(args);
        }
    }
    Err(
        "expected 'clients', 'monitors', 'workspaces', 'settings', 'keyboard layout', 'subscribe', 'dispatch <action> <id>', 'capture workspace <id> <path>', or 'set <key> <value>'".to_string(),
    )
}

// ---- The connection --------------------------------------------------------

/// Whether a response says that the request was refused.
pub fn is_refusal(response: &str) -> (r: bool)
    ensures
        r == has_part(response@, "\"ok\":false"@),
{
    contains(response, "\"ok\":false")
}

/// The name of the control socket, by the display that the window manager runs
/// on: that of `DISPLAY` on X11, and otherwise that of `WAYLAND_DISPLAY`, which
/// is `wayland-0` if it is not set.
pub fn socket_name(kind: PlatformKind, display: Option<&str>, wayland_display: Option<&str>) -> (r: Result<
    String,
    String,
>)
    ensures
        outcome(r) == (if kind == PlatformKind::X11 {
            match display {
                Some(d) => Ok("srdwm-"@ + d@ + ".sock"@),
                None => Err("DISPLAY is not set"@),
            }
        } else {
            match wayland_display {
                Some(d) => Ok("srdwm-"@ + d@ + ".sock"@),
                None => Ok("srdwm-"@ + "wayland-0"@ + ".sock"@),
            }
        }),
{
    if matches!(kind, PlatformKind::X11) {
        match display {
            Some(d) => Ok(text3("srdwm-", d, ".sock")),
            None => Err("DISPLAY is not set".to_string()),
        }
    } else {
        match wayland_display {
            Some(d) => Ok(text3("srdwm-", d, ".sock")),
            None => Ok(text3("srdwm-", "wayland-0", ".sock")),
        }
    }
}

// ---- Laws ------------------------------------------------------------------

/// What an accepted command line gives is an object whose first field is its
/// command.
pub proof fn lemma_requests_are_objects(args: Seq<Seq<char>>)
    ensures
        requested(args) matches Ok(line) ==> exists|command: Seq<char>, fields: Seq<char>|
            line == #[trigger] request(command, fields),
{
}

/// A command line that starts with no known word is refused, whatever follows.
pub proof fn lemma_unknown_words_are_refused(args: Seq<Seq<char>>)
    requires
        args.len() > 0,
        !is_query(args[0]),
        args[0] != "keyboard"@ && args[0] != "dispatch"@ && args[0] != "capture"@ && args[0] != "set"@,
    ensures
        requested(args) is Err,
{
}

// ---- What is sent ------------------------------------------------------------------

/// The words that an action can begin with differ.
proof fn lemma_verbs_differ()
    ensures
        "close"@ != "focus"@,
        "lock"@ != "focus"@,
        "lock"@ != "close"@,
        "toggle"@ != "focus"@,
        "toggle"@ != "close"@,
        "toggle"@ != "lock"@,
        "move"@ != "focus"@,
        "move"@ != "close"@,
        "move"@ != "lock"@,
        "move"@ != "toggle"@,
        "activate"@ != "focus"@,
        "activate"@ != "close"@,
        "activate"@ != "lock"@,
        "activate"@ != "toggle"@,
        "activate"@ != "move"@,
        "cycle"@ != "focus"@,
        "cycle"@ != "close"@,
        "cycle"@ != "lock"@,
        "cycle"@ != "toggle"@,
        "cycle"@ != "move"@,
        "cycle"@ != "activate"@,
        "set"@ != "focus"@,
        "set"@ != "close"@,
        "set"@ != "lock"@,
        "set"@ != "toggle"@,
        "set"@ != "move"@,
        "set"@ != "activate"@,
        "set"@ != "cycle"@,
        "create"@ != "focus"@,
        "create"@ != "close"@,
        "create"@ != "lock"@,
        "create"@ != "toggle"@,
        "create"@ != "move"@,
        "create"@ != "activate"@,
        "create"@ != "cycle"@,
        "create"@ != "set"@,
        "remove"@ != "focus"@,
        "remove"@ != "close"@,
        "remove"@ != "lock"@,
        "remove"@ != "toggle"@,
        "remove"@ != "move"@,
        "remove"@ != "activate"@,
        "remove"@ != "cycle"@,
        "remove"@ != "set"@,
        "remove"@ != "create"@,
        "pin"@ != "focus"@,
        "pin"@ != "close"@,
        "pin"@ != "lock"@,
        "pin"@ != "toggle"@,
        "pin"@ != "move"@,
        "pin"@ != "activate"@,
        "pin"@ != "cycle"@,
        "pin"@ != "set"@,
        "pin"@ != "create"@,
        "pin"@ != "remove"@,
        "unpin"@ != "focus"@,
        "unpin"@ != "close"@,
        "unpin"@ != "lock"@,
        "unpin"@ != "toggle"@,
        "unpin"@ != "move"@,
        "unpin"@ != "activate"@,
        "unpin"@ != "cycle"@,
        "unpin"@ != "set"@,
        "unpin"@ != "create"@,
        "unpin"@ != "remove"@,
        "unpin"@ != "pin"@,
{
    reveal_strlit("focus");
    reveal_strlit("close");
    reveal_strlit("lock");
    reveal_strlit("toggle");
    reveal_strlit("move");
    reveal_strlit("activate");
    reveal_strlit("cycle");
    reveal_strlit("set");
    reveal_strlit("create");
    reveal_strlit("remove");
    reveal_strlit("pin");
    reveal_strlit("unpin");
    assert("focus"@.len() == 5 && "focus"@[0] == 'f' && "focus"@[1] == 'o');
    assert("close"@.len() == 5 && "close"@[0] == 'c' && "close"@[1] == 'l');
    assert("lock"@.len() == 4 && "lock"@[0] == 'l' && "lock"@[1] == 'o');
    assert("toggle"@.len() == 6 && "toggle"@[0] == 't' && "toggle"@[1] == 'o');
    assert("move"@.len() == 4 && "move"@[0] == 'm' && "move"@[1] == 'o');
    assert("activate"@.len() == 8 && "activate"@[0] == 'a' && "activate"@[1] == 'c');
    assert("cycle"@.len() == 5 && "cycle"@[0] == 'c' && "cycle"@[1] == 'y');
    assert("set"@.len() == 3 && "set"@[0] == 's' && "set"@[1] == 'e');
    assert("create"@.len() == 6 && "create"@[0] == 'c' && "create"@[1] == 'r');
    assert("remove"@.len() == 6 && "remove"@[0] == 'r' && "remove"@[1] == 'e');
    assert("pin"@.len() == 3 && "pin"@[0] == 'p' && "pin"@[1] == 'i');
    assert("unpin"@.len() == 5 && "unpin"@[0] == 'u' && "unpin"@[1] == 'n');
}

/// To focus or close a window its id is sent, as the number that was given.
pub proof fn lemma_window_named(args: Seq<Seq<char>>, id: nat)
    requires
        args.len() >= 2,
        args[0] == "focus"@ || args[0] == "close"@,
        unsigned_of(args[1], u64::MAX as nat) == Some(id),
    ensures
        dispatch(args) == Ok::<Seq<char>, Seq<char>>(
            "{\"cmd\":\""@ + args[0] + "\""@ + (",\""@ + "id"@ + "\":"@ + decimal(id)) + "}"@,
        ),
{
}

/// To toggle something of a window, what is toggled is part of the command, and
/// the id is sent.
pub proof fn lemma_toggle_named(args: Seq<Seq<char>>, id: nat)
    requires
        args.len() >= 3,
        args[0] == "toggle"@,
        args[1] == "visibility"@ || args[1] == "maximize"@ || args[1] == "fullscreen"@ || args[1] == "floating"@
            || args[1] == "pinned"@,
        unsigned_of(args[2], u64::MAX as nat) == Some(id),
    ensures
        dispatch(args) == Ok::<Seq<char>, Seq<char>>(
            "{\"cmd\":\""@ + ("toggle_"@ + args[1]) + "\""@ + (",\""@ + "id"@ + "\":"@ + decimal(id)) + "}"@,
        ),
{
    lemma_verbs_differ();
}

/// To move a window, its id is sent with the direction, or with the workspace
/// that it goes to.
pub proof fn lemma_move_named(args: Seq<Seq<char>>, id: nat, workspace: nat)
    requires
        args.len() >= 4,
        args[0] == "move"@,
        unsigned_of(args[2], u64::MAX as nat) == Some(id),
    ensures
        args[1] == "window"@ && (args[3] == "left"@ || args[3] == "right"@ || args[3] == "up"@ || args[3] == "down"@)
            ==> dispatch(args) == Ok::<Seq<char>, Seq<char>>(
            "{\"cmd\":\""@ + "move_window"@ + "\""@ + ((",\""@ + "id"@ + "\":"@ + decimal(id)) + (",\""@
                + "direction"@ + "\":"@ + ("\""@ + args[3] + "\""@))) + "}"@,
        ),
        args[1] == "workspace"@ && unsigned_of(args[3], u64::MAX as nat) == Some(workspace) ==> dispatch(args) == Ok::<
            Seq<char>,
            Seq<char>,
        >(
            "{\"cmd\":\""@ + "move_to_workspace"@ + "\""@ + ((",\""@ + "id"@ + "\":"@ + decimal(id)) + (",\""@
                + "workspace"@ + "\":"@ + decimal(workspace))) + "}"@,
        ),
{
    lemma_verbs_differ();
    reveal_strlit("window");
    reveal_strlit("workspace");
    assert("window"@.len() == 6 && "window"@[0] == 'w' && "window"@[1] == 'i');
    assert("workspace"@.len() == 9 && "workspace"@[0] == 'w' && "workspace"@[1] == 'o');
}

/// To activate a workspace its id is sent. To lock and to go on to the next
/// keyboard layout nothing more is.
pub proof fn lemma_activate_named(args: Seq<Seq<char>>, id: nat)
    ensures
        args.len() >= 3 && args[0] == "activate"@ && args[1] == "workspace"@ && unsigned_of(args[2], u64::MAX as nat)
            == Some(id) ==> dispatch(args) == Ok::<Seq<char>, Seq<char>>(
            "{\"cmd\":\""@ + "activate_workspace"@ + "\""@ + (",\""@ + "id"@ + "\":"@ + decimal(id)) + "}"@,
        ),
        args.len() >= 1 && args[0] == "lock"@ ==> dispatch(args) == Ok::<Seq<char>, Seq<char>>(
            "{\"cmd\":\""@ + "lock"@ + "\""@ + ""@ + "}"@,
        ),
        args.len() >= 3 && args[0] == "cycle"@ && args[1] == "keyboard"@ && args[2] == "layout"@ ==> dispatch(args)
            == Ok::<Seq<char>, Seq<char>>("{\"cmd\":\""@ + "cycle_keyboard_layout"@ + "\""@ + ""@ + "}"@),
{
    lemma_verbs_differ();
}

/// To pin the input of a process to a window, both numbers are sent; to let go of
/// it, the process alone.
pub proof fn lemma_pin_named(args: Seq<Seq<char>>, pid: int, id: nat)
    requires
        args.len() >= 3,
        args[1] == "input"@,
        signed_of(args[2]) == Some(pid),
    ensures
        args[0] == "unpin"@ ==> dispatch(args) == Ok::<Seq<char>, Seq<char>>(
            "{\"cmd\":\""@ + "pin_input"@ + "\""@ + (",\""@ + "pid"@ + "\":"@ + decimal_signed(pid)) + "}"@,
        ),
        args[0] == "pin"@ && args.len() >= 4 && unsigned_of(args[3], u64::MAX as nat) == Some(id) ==> dispatch(args)
            == Ok::<Seq<char>, Seq<char>>(
            "{\"cmd\":\""@ + "pin_input"@ + "\""@ + ((",\""@ + "pid"@ + "\":"@ + decimal_signed(pid)) + (",\""@
                + "id"@ + "\":"@ + decimal(id))) + "}"@,
        ),
{
    lemma_verbs_differ();
}

/// What is set of an output is sent with the output, which is named by its number
/// or by its name.
pub proof fn lemma_output_named(args: Seq<Seq<char>>, x: int, y: int, parts: nat)
    requires
        args.len() >= 5,
        args[0] == "set"@,
        args[1] == "output"@,
    ensures
        ({
            let number = unsigned_of(args[3], u64::MAX as nat);
            let output = if number is Some {
                ",\""@ + "id"@ + "\":"@ + decimal(number->Some_0)
            } else {
                ",\""@ + "name"@ + "\":"@ + ("\""@ + args[3] + "\""@)
            };
            &&& args[2] == "position"@ && signed_of(args[4]) == Some(x) && args.len() >= 6 && signed_of(args[5]) == Some(y)
                ==> dispatch(args) == Ok::<Seq<char>, Seq<char>>(
                "{\"cmd\":\""@ + "set_output_position"@ + "\""@ + (output + (",\""@ + "x"@ + "\":"@ + decimal_signed(x))
                    + (",\""@ + "y"@ + "\":"@ + decimal_signed(y))) + "}"@,
            )
            &&& args[2] == "enabled"@ && (args[4] == "true"@ || args[4] == "false"@) ==> dispatch(args) == Ok::<
                Seq<char>,
                Seq<char>,
            >(
                "{\"cmd\":\""@ + "set_output_enabled"@ + "\""@ + (output + (",\""@ + "enabled"@ + "\":"@ + args[4]))
                    + "}"@,
            )
            &&& args[2] == "split"@ && unsigned_of(args[4], u64::MAX as nat) == Some(parts) && args.len() == 5
                ==> dispatch(args) == Ok::<Seq<char>, Seq<char>>(
                "{\"cmd\":\""@ + "set_monitor_split"@ + "\""@ + (output + (",\""@ + "parts"@ + "\":"@ + decimal(parts))
                    + (",\""@ + "rows"@ + "\":"@ + "false"@)) + "}"@,
            )
            &&& args[2] == "split"@ && unsigned_of(args[4], u64::MAX as nat) == Some(parts) && args.len() > 5 && (args[5]
                == "rows"@ || args[5] == "columns"@) ==> dispatch(args) == Ok::<Seq<char>, Seq<char>>(
                "{\"cmd\":\""@ + "set_monitor_split"@ + "\""@ + (output + (",\""@ + "parts"@ + "\":"@ + decimal(parts))
                    + (",\""@ + "rows"@ + "\":"@ + (if args[5] == "rows"@ { "true"@ } else { "false"@ }))) + "}"@,
            )
        }),
{
    lemma_verbs_differ();
    reveal_strlit("position");
    reveal_strlit("enabled");
    reveal_strlit("split");
    reveal_strlit("true");
    reveal_strlit("false");
    assert("position"@.len() == 8 && "position"@[0] == 'p' && "position"@[1] == 'o');
    assert("enabled"@.len() == 7 && "enabled"@[0] == 'e' && "enabled"@[1] == 'n');
    assert("split"@.len() == 5 && "split"@[0] == 's' && "split"@[1] == 'p');
    assert("true"@.len() == 4 && "true"@[0] == 't' && "true"@[1] == 'r');
    assert("false"@.len() == 5 && "false"@[0] == 'f' && "false"@[1] == 'a');
}

/// To make a monitor that is not there its name and size are sent, and to take
/// it away its name.
pub proof fn lemma_fake_monitor_named(args: Seq<Seq<char>>, w: Seq<char>, h: Seq<char>, width: nat, height: nat)
    requires
        args.len() >= 3,
        args[1] == "fake-monitor"@,
    ensures
        args[0] == "remove"@ ==> dispatch(args) == Ok::<Seq<char>, Seq<char>>(
            "{\"cmd\":\""@ + "remove_fake_monitor"@ + "\""@ + (",\""@ + "name"@ + "\":"@ + quoted_of(args[2]))
                + "}"@,
        ),
        args[0] == "create"@ && args.len() >= 4 && args[3] == w.push('x') + h && (forall|k: int|
            0 <= k < w.len() ==> w[k] != 'x') && unsigned_of(w, u32::MAX as nat) == Some(width) && unsigned_of(
            h,
            u32::MAX as nat,
        ) == Some(height) ==> dispatch(args) == Ok::<Seq<char>, Seq<char>>(
            "{\"cmd\":\""@ + "create_fake_monitor"@ + "\""@ + ((",\""@ + "name"@ + "\":"@ + quoted_of(args[2])) + (
            ",\""@ + "width"@ + "\":"@ + decimal(width)) + (",\""@ + "height"@ + "\":"@ + decimal(height))) + "}"@,
        ),
{
    lemma_verbs_differ();
    if forall|k: int| 0 <= k < w.len() ==> w[k] != 'x' {
        lemma_split_once(w, 'x', h);
    }
}

/// To draw a workspace its id and the path are sent, and the size if one is given.
pub proof fn lemma_capture_named(args: Seq<Seq<char>>, id: nat, w: Seq<char>, h: Seq<char>, width: nat, height: nat)
    requires
        args.len() >= 4,
        args[0] == "capture"@,
        args[1] == "workspace"@,
        unsigned_of(args[2], u64::MAX as nat) == Some(id),
    ensures
        ({
            let drawn = (",\""@ + "id"@ + "\":"@ + decimal(id)) + (",\""@ + "path"@ + "\":"@ + quoted_of(args[3]));
            &&& args.len() == 4 ==> requested(args) == Ok::<Seq<char>, Seq<char>>(
                "{\"cmd\":\""@ + "capture_workspace"@ + "\""@ + (drawn + ""@) + "}"@,
            )
            &&& args.len() > 4 && args[4] == w.push('x') + h && (forall|k: int| 0 <= k < w.len() ==> w[k] != 'x')
                && unsigned_of(w, u64::MAX as nat) == Some(width) && unsigned_of(h, u64::MAX as nat) == Some(height)
                ==> requested(args) == Ok::<Seq<char>, Seq<char>>(
                "{\"cmd\":\""@ + "capture_workspace"@ + "\""@ + (drawn + ((",\""@ + "width"@ + "\":"@ + decimal(width))
                    + (",\""@ + "height"@ + "\":"@ + decimal(height)))) + "}"@,
            )
        }),
{
    lemma_first_words_differ();
    if forall|k: int| 0 <= k < w.len() ==> w[k] != 'x' {
        lemma_split_once(w, 'x', h);
    }
}

/// The words that a request can begin with differ.
proof fn lemma_first_words_differ()
    ensures
        !is_query("keyboard"@) && !is_query("dispatch"@) && !is_query("capture"@) && !is_query("set"@),
        "dispatch"@ != "keyboard"@,
        "capture"@ != "keyboard"@ && "capture"@ != "dispatch"@,
        "set"@ != "keyboard"@ && "set"@ != "dispatch"@ && "set"@ != "capture"@,
{
    reveal_strlit("clients");
    reveal_strlit("monitors");
    reveal_strlit("workspaces");
    reveal_strlit("settings");
    reveal_strlit("subscribe");
    reveal_strlit("keyboard");
    reveal_strlit("dispatch");
    reveal_strlit("capture");
    reveal_strlit("set");
    assert("clients"@.len() == 7 && "clients"@[0] == 'c' && "clients"@[1] == 'l');
    assert("monitors"@.len() == 8 && "monitors"@[0] == 'm' && "monitors"@[1] == 'o');
    assert("workspaces"@.len() == 10 && "workspaces"@[0] == 'w' && "workspaces"@[1] == 'o');
    assert("settings"@.len() == 8 && "settings"@[0] == 's' && "settings"@[1] == 'e');
    assert("subscribe"@.len() == 9 && "subscribe"@[0] == 's' && "subscribe"@[1] == 'u');
    assert("keyboard"@.len() == 8 && "keyboard"@[0] == 'k' && "keyboard"@[1] == 'e');
    assert("dispatch"@.len() == 8 && "dispatch"@[0] == 'd' && "dispatch"@[1] == 'i');
    assert("capture"@.len() == 7 && "capture"@[0] == 'c' && "capture"@[1] == 'a');
    assert("set"@.len() == 3 && "set"@[0] == 's' && "set"@[1] == 'e');
}

/// What is asked after `dispatch` is the action, and a word that asks for a list
/// is the command.
pub proof fn lemma_asked_for(args: Seq<Seq<char>>)
    requires
        args.len() >= 1,
    ensures
        args[0] == "dispatch"@ ==> requested(args) == dispatch(args.skip(1)),
        args[0] == "keyboard"@ && args.len() >= 2 && args[1] == "layout"@ ==> requested(args) == Ok::<
            Seq<char>,
            Seq<char>,
        >("{\"cmd\":\""@ + "keyboard_layout"@ + "\""@ + ""@ + "}"@),
        args[0] == "clients"@ || args[0] == "monitors"@ || args[0] == "workspaces"@ || args[0] == "settings"@ || args[0]
            == "subscribe"@ ==> requested(args) == Ok::<Seq<char>, Seq<char>>(
            "{\"cmd\":\""@ + args[0] + "\""@ + ""@ + "}"@,
        ),
{
    lemma_first_words_differ();
}

/// A setting is sent under its key: a number as that number, a switch as it was
/// given, and a mode or a color as a text. Nothing else that is given is sent.
pub proof fn lemma_setting_named(args: Seq<Seq<char>>)
    requires
        args.len() >= 3,
        args[0] == "set"@,
    ensures
        (args[1] == "border_width"@ || args[1] == "corner_radius"@ || args[1] == "gap_inner"@ || args[1] == "gap_outer"@)
            ==> match unsigned_of(args[2], u64::MAX as nat) {
            Some(n) => requested(args) == Ok::<Seq<char>, Seq<char>>(
            "{\"cmd\":\""@ + "set"@ + "\""@ + ((",\""@ + "key"@ + "\":"@ + ("\""@ + args[1] + "\""@)) + (",\""@
                + "value"@ + "\":"@ + decimal(n))) + "}"@,
        ),
            None => requested(args) is Err,
        },
        (args[1] == "shadows"@ || args[1] == "rounded_corners"@ || args[1] == "animations"@ || args[1] == "night_light"@
            || args[1] == "reading_mode"@ || args[1] == "phone_mode"@ || args[1] == "multi_cursor"@) ==> if args[2] == "true"@
            || args[2] == "false"@ {
            requested(args) == Ok::<Seq<char>, Seq<char>>(
            "{\"cmd\":\""@ + "set"@ + "\""@ + ((",\""@ + "key"@ + "\":"@ + ("\""@ + args[1] + "\""@)) + (",\""@
                + "value"@ + "\":"@ + args[2])) + "}"@,
        )
        } else {
            requested(args) is Err
        },
        args[1] == "decoration_mode"@ ==> if args[2] == "server"@ || args[2] == "client"@ {
            requested(args) == Ok::<Seq<char>, Seq<char>>(
            "{\"cmd\":\""@ + "set"@ + "\""@ + ((",\""@ + "key"@ + "\":"@ + ("\""@ + args[1] + "\""@)) + (",\""@
                + "value"@ + "\":"@ + quoted_of(args[2]))) + "}"@,
        )
        } else {
            requested(args) is Err
        },
        args[1] == "border_color"@ ==> requested(args) == Ok::<Seq<char>, Seq<char>>(
            "{\"cmd\":\""@ + "set"@ + "\""@ + ((",\""@ + "key"@ + "\":"@ + ("\""@ + args[1] + "\""@)) + (",\""@
                + "value"@ + "\":"@ + quoted_of(args[2]))) + "}"@,
        ),
{
    lemma_first_words_differ();
    lemma_keys_differ(args[1]);
}

/// No key asks for two kinds of value.
proof fn lemma_keys_differ(key: Seq<char>)
    ensures
        is_switch_key(key) ==> !is_number_key(key),
        !is_number_key("decoration_mode"@) && !is_switch_key("decoration_mode"@),
        !is_number_key("border_color"@) && !is_switch_key("border_color"@),
        "border_color"@ != "decoration_mode"@,
{
    reveal_strlit("border_width");
    reveal_strlit("corner_radius");
    reveal_strlit("gap_inner");
    reveal_strlit("gap_outer");
    reveal_strlit("shadows");
    reveal_strlit("rounded_corners");
    reveal_strlit("animations");
    reveal_strlit("night_light");
    reveal_strlit("reading_mode");
    reveal_strlit("phone_mode");
    reveal_strlit("multi_cursor");
    reveal_strlit("decoration_mode");
    reveal_strlit("border_color");
    assert("border_width"@[0] == 'b' && "border_width"@[1] == 'o');
    assert("corner_radius"@[0] == 'c' && "corner_radius"@[1] == 'o');
    assert("gap_inner"@[0] == 'g' && "gap_inner"@[1] == 'a');
    assert("gap_outer"@[0] == 'g' && "gap_outer"@[1] == 'a');
    assert("shadows"@[0] == 's' && "shadows"@[1] == 'h');
    assert("rounded_corners"@[0] == 'r' && "rounded_corners"@[1] == 'o');
    assert("animations"@[0] == 'a' && "animations"@[1] == 'n');
    assert("night_light"@[0] == 'n' && "night_light"@[1] == 'i');
    assert("reading_mode"@[0] == 'r' && "reading_mode"@[1] == 'e');
    assert("phone_mode"@[0] == 'p' && "phone_mode"@[1] == 'h');
    assert("multi_cursor"@[0] == 'm' && "multi_cursor"@[1] == 'u');
    assert("decoration_mode"@[0] == 'd' && "decoration_mode"@[1] == 'e');
    assert("border_color"@[0] == 'b' && "border_color"@[1] == 'o');
    assert("border_width"@[7] == 'w' && "border_color"@[7] == 'c');
}

/// A word that should be a number, a direction or a switch and is none is refused.
pub proof fn lemma_bad_words_are_refused(args: Seq<Seq<char>>)
    requires
        args.len() >= 1,
    ensures
        (args[0] == "focus"@ || args[0] == "close"@) && (args.len() < 2 || unsigned_of(args[1], u64::MAX as nat) is None)
            ==> dispatch(args) is Err,
        (args[0] == "toggle"@ || args[0] == "move"@) && (args.len() < 3 || unsigned_of(args[2], u64::MAX as nat) is None)
            ==> dispatch(args) is Err,
        args[0] == "move"@ && args.len() >= 4 && args[1] == "window"@ && args[3] != "left"@ && args[3] != "right"@
            && args[3] != "up"@ && args[3] != "down"@ ==> dispatch(args) is Err,
        args[0] == "move"@ && args.len() >= 4 && args[1] == "workspace"@ && unsigned_of(args[3], u64::MAX as nat) is None
            ==> dispatch(args) is Err,
        (args[0] == "pin"@ || args[0] == "unpin"@) && (args.len() < 3 || signed_of(args[2]) is None) ==> dispatch(args)
            is Err,
        args[0] == "set"@ && args.len() >= 5 && args[1] == "output"@ && args[2] == "enabled"@ && args[4] != "true"@
            && args[4] != "false"@ ==> dispatch(args) is Err,
        args[0] == "set"@ && args.len() >= 5 && args[1] == "output"@ && args[2] == "split"@ && unsigned_of(
            args[4],
            u64::MAX as nat,
        ) is None ==> dispatch(args) is Err,
{
    lemma_verbs_differ();
    reveal_strlit("window");
    reveal_strlit("workspace");
    assert("window"@.len() == 6 && "workspace"@.len() == 9);
    reveal_strlit("position");
    reveal_strlit("enabled");
    reveal_strlit("split");
    assert("position"@.len() == 8 && "enabled"@.len() == 7 && "split"@.len() == 5);
}

} // verus!
