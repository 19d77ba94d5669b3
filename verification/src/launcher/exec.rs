//! The command line of a desktop entry: its arguments and its field codes.

use vstd::prelude::*;

use crate::error::{invalid, invalid_input, malformed, refused, told, Fault, SessionError};
use crate::text::{
    byte_len, chars_of, contains_char, is_space, is_text, pieces, space_char, text_bytes, texts,
};

verus! {

/// The most files and addresses of a launch.
pub const MAX_RESOURCES: usize = 256;

/// The longest file or address, in bytes.
pub const MAX_RESOURCE_BYTES: usize = 16 * 1024;

/// The most bytes of all files and addresses of a launch.
pub const MAX_RESOURCE_TOTAL_BYTES: usize = 1024 * 1024;

/// What is opened by a launch.
pub struct LaunchResources {
    pub files: Vec<String>,
    pub urls: Vec<String>,
}

pub struct ResourcesView {
    pub files: Seq<Seq<char>>,
    pub urls: Seq<Seq<char>>,
}

impl View for LaunchResources {
    type V = ResourcesView;

    open spec fn view(&self) -> ResourcesView {
        ResourcesView { files: texts(self.files@), urls: texts(self.urls@) }
    }
}

impl LaunchResources {
    /// Nothing is opened.
    pub fn none() -> (resources: LaunchResources)
        ensures
            resources@ == no_resources(),
    {
        let resources = LaunchResources { files: Vec::new(), urls: Vec::new() };
        assert(resources@.files =~= Seq::empty());
        assert(resources@.urls =~= Seq::empty());
        resources
    }
}

pub open spec fn no_resources() -> ResourcesView {
    ResourcesView { files: Seq::empty(), urls: Seq::empty() }
}

// ---------------------------------------------------------------------------
// Resources
// ---------------------------------------------------------------------------

/// Whether a file or an address can be handed on.
pub open spec fn is_resource(s: Seq<char>) -> bool {
    s.len() > 0 && !s.contains('\0') && byte_len(s) <= MAX_RESOURCE_BYTES
}

/// Why resources are refused, if they are, with what came before them.
pub open spec fn resource_fault(list: Seq<Seq<char>>, total: int) -> Option<Seq<char>>
    decreases list.len(),
{
    if list.len() == 0 {
        None
    } else if !is_resource(list[0]) {
        Some("launch resource is invalid or oversized"@)
    } else if total + byte_len(list[0]) > MAX_RESOURCE_TOTAL_BYTES {
        Some("launch resources exceed aggregate limit"@)
    } else {
        resource_fault(list.skip(1), total + byte_len(list[0]))
    }
}

/// Checks that there are not too many resources, nor too large ones.
pub open spec fn checked_resources(resources: ResourcesView) -> Result<(), Fault> {
    if resources.files.len() + resources.urls.len() > MAX_RESOURCES {
        refused("too many launch resources"@)
    } else {
        match resource_fault(resources.files + resources.urls, 0) {
            Some(fault) => refused(fault),
            None => Ok(()),
        }
    }
}

pub fn validate_resources(resources: &LaunchResources) -> (checked: Result<(), SessionError>)
    ensures
        told(checked) == checked_resources(resources@),
{
    assert(resources@.files.len() == resources.files@.len());
    assert(resources@.urls.len() == resources.urls@.len());
    if resources.files.len() > MAX_RESOURCES || resources.urls.len() > MAX_RESOURCES
        - resources.files.len() {
        return invalid_input("too many launch resources");
    }
    let ghost all = resources@.files + resources@.urls;
    let count: usize = resources.files.len() + resources.urls.len();
    let mut total: usize = 0;
    let mut i: usize = 0;
    assert(all.skip(0) =~= all);
    while i < count
        invariant
            i <= count,
            count == resources.files@.len() + resources.urls@.len(),
            all == resources@.files + resources@.urls,
            all.len() == count,
            total <= MAX_RESOURCE_TOTAL_BYTES,
            resource_fault(all, 0) == resource_fault(all.skip(i as int), total as int),
            checked_resources(resources@) == match resource_fault(all, 0) {
                Some(fault) => refused(fault),
                None => Ok(()),
            },
        decreases count - i,
    {
        let resource = if i < resources.files.len() {
            resources.files[i].as_str()
        } else {
            resources.urls[i - resources.files.len()].as_str()
        };
        proof {
            if i < resources.files@.len() {
                assert(all[i as int] == texts(resources.files@)[i as int]);
            } else {
                assert(all[i as int] == texts(resources.urls@)[i - resources.files@.len()]);
            }
            assert(all.skip(i as int)[0] == resource@);
            assert(all.skip(i as int).skip(1) =~= all.skip(i + 1));
        }
        let letters = chars_of(resource);
        let size: usize = text_bytes(resource);
        if letters.len() == 0 || contains_char(letters.as_slice(), '\0') || size
            > MAX_RESOURCE_BYTES {
            return invalid_input("launch resource is invalid or oversized");
        }
        if total + size > MAX_RESOURCE_TOTAL_BYTES {
            return invalid_input("launch resources exceed aggregate limit");
        }
        total = total + size;
        i = i + 1;
    }
    Ok(())
}

// ---------------------------------------------------------------------------
// Arguments
// ---------------------------------------------------------------------------

/// What a list of texts says, or its failure.
pub open spec fn listed(result: Result<Vec<String>, SessionError>) -> Result<
    Seq<Seq<char>>,
    Fault,
> {
    match result {
        Ok(list) => Ok(texts(list@)),
        Err(error) => Err((error.kind, error.message@)),
    }
}

/// The arguments in the rest of a command line. White space separates arguments
/// outside of quotes; a backslash takes the next character as it is.
pub open spec fn arguments_from(
    s: Seq<char>,
    done: Seq<Seq<char>>,
    current: Seq<char>,
    quoted: bool,
    active: bool,
) -> Result<Seq<Seq<char>>, Fault>
    decreases s.len(),
{
    if s.len() == 0 {
        if quoted {
            malformed("malformed Exec quoting"@)
        } else if active {
            Ok(done.push(current))
        } else {
            Ok(done)
        }
    } else if s[0] == '\\' {
        if s.len() == 1 {
            malformed("malformed Exec quoting"@)
        } else {
            arguments_from(s.skip(2), done, current.push(s[1]), quoted, true)
        }
    } else if s[0] == '"' {
        arguments_from(s.skip(1), done, current, !quoted, true)
    } else if is_space(s[0]) && !quoted {
        if active {
            arguments_from(s.skip(1), done.push(current), Seq::empty(), quoted, false)
        } else {
            arguments_from(s.skip(1), done, current, quoted, false)
        }
    } else {
        arguments_from(s.skip(1), done, current.push(s[0]), quoted, true)
    }
}

/// The arguments of a command line.
pub open spec fn arguments_in(s: Seq<char>) -> Result<Seq<Seq<char>>, Fault> {
    arguments_from(s, Seq::empty(), Seq::empty(), false, false)
}

/// An argument with every quote and backslash escaped.
pub open spec fn escaped(s: Seq<char>) -> Seq<char>
    decreases s.len(),
{
    if s.len() == 0 {
        Seq::empty()
    } else if s[0] == '\\' || s[0] == '"' {
        seq!['\\', s[0]] + escaped(s.skip(1))
    } else {
        seq![s[0]] + escaped(s.skip(1))
    }
}

/// A command line of quoted arguments.
pub open spec fn quoted_line(list: Seq<Seq<char>>) -> Seq<char>
    decreases list.len(),
{
    if list.len() == 0 {
        Seq::empty()
    } else {
        seq!['"'] + (escaped(list[0]) + (seq!['"', ' '] + quoted_line(list.skip(1))))
    }
}

proof fn escaped_is_read(s: Seq<char>, rest: Seq<char>, done: Seq<Seq<char>>, current: Seq<char>)
    ensures
        arguments_from(escaped(s) + rest, done, current, true, true) == arguments_from(
            rest,
            done,
            current + s,
            true,
            true,
        ),
    decreases s.len(),
{
    if s.len() == 0 {
        assert(escaped(s) + rest =~= rest);
        assert(current + s =~= current);
    } else {
        let whole = escaped(s) + rest;
        let tail = escaped(s.skip(1)) + rest;
        assert(current + s =~= current.push(s[0]) + s.skip(1));
        escaped_is_read(s.skip(1), rest, done, current.push(s[0]));
        if s[0] == '\\' || s[0] == '"' {
            assert(whole[0] == '\\' && whole[1] == s[0]);
            assert(whole.skip(2) =~= tail);
        } else {
            assert(whole[0] == s[0]);
            assert(whole.skip(1) =~= tail);
        }
    }
}

proof fn quoted_line_is_read(list: Seq<Seq<char>>, done: Seq<Seq<char>>)
    ensures
        arguments_from(quoted_line(list), done, Seq::empty(), false, false) == Ok::<
            Seq<Seq<char>>,
            Fault,
        >(done + list),
    decreases list.len(),
{
    let none = Seq::<char>::empty();
    if list.len() == 0 {
        assert(done + list =~= done);
    } else {
        let after = seq!['"', ' '] + quoted_line(list.skip(1));
        let body = escaped(list[0]) + after;
        let line = quoted_line(list);
        assert(line[0] == '"');
        assert(line.skip(1) =~= body);
        escaped_is_read(list[0], after, done, none);
        assert(none + list[0] =~= list[0]);
        assert(after[0] == '"');
        let gap = after.skip(1);
        assert(gap[0] == ' ');
        assert(gap.skip(1) =~= quoted_line(list.skip(1)));
        assert(is_space(' '));
        assert(arguments_from(line, done, none, false, false) == arguments_from(
            body,
            done,
            none,
            true,
            true,
        ));
        assert(arguments_from(after, done, list[0], true, true) == arguments_from(
            gap,
            done,
            list[0],
            false,
            true,
        ));
        assert(arguments_from(gap, done, list[0], false, true) == arguments_from(
            quoted_line(list.skip(1)),
            done.push(list[0]),
            none,
            false,
            false,
        ));
        quoted_line_is_read(list.skip(1), done.push(list[0]));
        assert(done.push(list[0]) + list.skip(1) =~= done + list);
    }
}

/// Quoted arguments are read back as they were, whatever they hold.
pub proof fn quoted_arguments_are_read_back(list: Seq<Seq<char>>)
    ensures
        arguments_in(quoted_line(list)) == Ok::<Seq<Seq<char>>, Fault>(list),
{
    quoted_line_is_read(list, Seq::empty());
    assert(Seq::<Seq<char>>::empty() + list =~= list);
}

/// Splits a command line into its arguments.
pub fn tokenize(line: &str) -> (tokens: Result<Vec<Vec<char>>, SessionError>)
    ensures
        match tokens {
            Ok(tokens) => arguments_in(line@) == Ok::<Seq<Seq<char>>, Fault>(pieces(tokens@)),
            Err(error) => arguments_in(line@) == Err::<Seq<Seq<char>>, Fault>(
                (error.kind, error.message@),
            ),
        },
{
    let letters = chars_of(line);
    let mut done: Vec<Vec<char>> = Vec::new();
    let mut current: Vec<char> = Vec::new();
    let mut quoted = false;
    let mut active = false;
    let mut i: usize = 0;
    assert(letters@.skip(0) =~= letters@);
    assert(pieces(done@) =~= Seq::empty());
    while i < letters.len()
        invariant
            i <= letters@.len(),
            letters@ == line@,
            arguments_in(line@) == arguments_from(
                letters@.skip(i as int),
                pieces(done@),
                current@,
                quoted,
                active,
            ),
        decreases letters.len() - i,
    {
        let ghost rest = letters@.skip(i as int);
        assert(rest[0] == letters@[i as int]);
        let c: char = letters[i];
        if c == '\\' {
            if i + 1 == letters.len() {
                return invalid("malformed Exec quoting");
            }
            assert(rest[1] == letters@[i + 1]);
            assert(rest.skip(2) =~= letters@.skip(i + 2));
            current.push(letters[i + 1]);
            active = true;
            i = i + 2;
        } else {
            assert(rest.skip(1) =~= letters@.skip(i + 1));
            if c == '"' {
                quoted = !quoted;
                active = true;
            } else if space_char(c) && !quoted {
                if active {
                    let ghost before = done@;
                    let ghost argument = current@;
                    done.push(current);
                    assert(pieces(done@) =~= pieces(before).push(argument));
                    current = Vec::new();
                    assert(current@ =~= Seq::empty());
                    active = false;
                }
            } else {
                current.push(c);
                active = true;
            }
            i = i + 1;
        }
    }
    if quoted {
        return invalid("malformed Exec quoting");
    }
    if active {
        let ghost before = done@;
        let ghost argument = current@;
        done.push(current);
        assert(pieces(done@) =~= pieces(before).push(argument));
    }
    Ok(done)
}

// ---------------------------------------------------------------------------
// Field codes
// ---------------------------------------------------------------------------

/// What field codes stand for in an entry.
pub struct EntryFields {
    pub name: Seq<char>,
    pub icon: Option<Seq<char>>,
    pub path: Seq<char>,
}

/// The first of a list, or nothing.
pub open spec fn first_or_empty(list: Seq<Seq<char>>) -> Seq<char> {
    if list.len() > 0 {
        list[0]
    } else {
        Seq::empty()
    }
}

/// What a field code within an argument stands for. Codes that were withdrawn
/// stand for nothing.
pub open spec fn substitution(
    code: char,
    entry: EntryFields,
    resources: ResourcesView,
) -> Result<Seq<char>, Fault> {
    if code == '%' {
        Ok(seq!['%'])
    } else if code == 'c' {
        Ok(entry.name)
    } else if code == 'k' {
        Ok(entry.path)
    } else if code == 'f' {
        Ok(first_or_empty(resources.files))
    } else if code == 'u' {
        Ok(first_or_empty(resources.urls))
    } else if code == 'd' || code == 'D' || code == 'n' || code == 'N' || code == 'v' || code
        == 'm' {
        Ok(Seq::empty())
    } else if code == 'F' || code == 'U' || code == 'i' {
        malformed("multi-argument field code must be a complete argument"@)
    } else {
        malformed("unsupported Exec field code"@)
    }
}

/// An argument with its field codes replaced.
pub open spec fn substituted(
    s: Seq<char>,
    done: Seq<char>,
    entry: EntryFields,
    resources: ResourcesView,
) -> Result<Seq<char>, Fault>
    decreases s.len(),
{
    if s.len() == 0 {
        Ok(done)
    } else if s[0] != '%' {
        substituted(s.skip(1), done.push(s[0]), entry, resources)
    } else if s.len() == 1 {
        malformed("trailing Exec field code"@)
    } else {
        match substitution(s[1], entry, resources) {
            Err(fault) => Err(fault),
            Ok(text) => substituted(s.skip(2), done + text, entry, resources),
        }
    }
}

/// The arguments that an argument of a command line stands for.
pub open spec fn expanded_argument(
    token: Seq<char>,
    entry: EntryFields,
    resources: ResourcesView,
) -> Result<Seq<Seq<char>>, Fault> {
    if token == "%F"@ {
        Ok(resources.files)
    } else if token == "%U"@ {
        Ok(resources.urls)
    } else if token == "%i"@ {
        Ok(
            match entry.icon {
                Some(icon) => seq!["--icon"@, icon],
                None => Seq::empty(),
            },
        )
    } else {
        match substituted(token, Seq::empty(), entry, resources) {
            Err(fault) => Err(fault),
            Ok(text) => Ok(
                if text.len() > 0 {
                    seq![text]
                } else {
                    Seq::empty()
                },
            ),
        }
    }
}

/// The arguments that those of a command line stand for, in order.
pub open spec fn expanded_arguments(
    tokens: Seq<Seq<char>>,
    done: Seq<Seq<char>>,
    entry: EntryFields,
    resources: ResourcesView,
) -> Result<Seq<Seq<char>>, Fault>
    decreases tokens.len(),
{
    if tokens.len() == 0 {
        Ok(done)
    } else {
        match expanded_argument(tokens[0], entry, resources) {
            Err(fault) => Err(fault),
            Ok(list) => expanded_arguments(tokens.skip(1), done + list, entry, resources),
        }
    }
}

/// The program and the arguments of a command line.
pub open spec fn expanded(
    exec: Seq<char>,
    entry: EntryFields,
    resources: ResourcesView,
) -> Result<Seq<Seq<char>>, Fault> {
    match arguments_in(exec) {
        Err(fault) => Err(fault),
        Ok(tokens) => if tokens.len() == 0 {
            malformed("Exec is empty"@)
        } else {
            match expanded_arguments(tokens, Seq::empty(), entry, resources) {
                Err(fault) => Err(fault),
                Ok(output) => if output.len() == 0 || output[0].len() == 0 {
                    malformed("Exec has no program"@)
                } else {
                    Ok(output)
                },
            }
        },
    }
}

/// The fields of an entry that a command line may use.
pub struct ExecFields<'a> {
    pub name: &'a str,
    pub icon: Option<&'a str>,
    pub path: &'a str,
}

impl<'a> View for ExecFields<'a> {
    type V = EntryFields;

    open spec fn view(&self) -> EntryFields {
        EntryFields {
            name: self.name@,
            icon: match self.icon {
                Some(icon) => Some(icon@),
                None => None,
            },
            path: self.path@,
        }
    }
}

fn first_text(list: &Vec<String>) -> (text: String)
    ensures
        text@ == first_or_empty(texts(list@)),
{
    if list.len() > 0 {
        assert(texts(list@)[0] == list@[0]@);
        list[0].clone()
    } else {
        String::new()
    }
}

fn substitute(code: char, entry: &ExecFields, resources: &LaunchResources) -> (text: Result<
    String,
    SessionError,
>)
    ensures
        crate::error::seen(text) == substitution(code, entry@, resources@),
{
    if code == '%' {
        let mut text = String::new();
        text.push('%');
        assert(text@ =~= seq!['%']);
        Ok(text)
    } else if code == 'c' {
        Ok(entry.name.to_owned())
    } else if code == 'k' {
        Ok(entry.path.to_owned())
    } else if code == 'f' {
        Ok(first_text(&resources.files))
    } else if code == 'u' {
        Ok(first_text(&resources.urls))
    } else if code == 'd' || code == 'D' || code == 'n' || code == 'N' || code == 'v' || code
        == 'm' {
        Ok(String::new())
    } else if code == 'F' || code == 'U' || code == 'i' {
        invalid("multi-argument field code must be a complete argument")
    } else {
        invalid("unsupported Exec field code")
    }
}

fn substitute_all(token: &Vec<char>, entry: &ExecFields, resources: &LaunchResources) -> (text:
    Result<String, SessionError>)
    ensures
        crate::error::seen(text) == substituted(token@, Seq::empty(), entry@, resources@),
{
    let mut text = String::new();
    let mut i: usize = 0;
    assert(token@.skip(0) =~= token@);
    while i < token.len()
        invariant
            i <= token@.len(),
            substituted(token@, Seq::empty(), entry@, resources@) == substituted(
                token@.skip(i as int),
                text@,
                entry@,
                resources@,
            ),
        decreases token.len() - i,
    {
        let ghost rest = token@.skip(i as int);
        assert(rest[0] == token@[i as int]);
        if token[i] != '%' {
            assert(rest.skip(1) =~= token@.skip(i + 1));
            text.push(token[i]);
            i = i + 1;
        } else {
            if i + 1 == token.len() {
                return invalid("trailing Exec field code");
            }
            assert(rest[1] == token@[i + 1]);
            assert(rest.skip(2) =~= token@.skip(i + 2));
            match substitute(token[i + 1], entry, resources) {
                Ok(value) => text.append(value.as_str()),
                Err(error) => return Err(error),
            }
            i = i + 2;
        }
    }
    Ok(text)
}

fn push_all(output: &mut Vec<String>, list: &Vec<String>)
    ensures
        texts(final(output)@) == texts(old(output)@) + texts(list@),
{
    let ghost before = texts(output@);
    for i in 0..list.len()
        invariant
            texts(output@) == before + texts(list@).take(i as int),
    {
        let ghost earlier = output@;
        output.push(list[i].clone());
        assert(texts(output@) =~= texts(earlier).push(list@[i as int]@));
        assert(texts(output@) =~= before + texts(list@).take(i + 1));
    }
    assert(texts(list@).take(list@.len() as int) =~= texts(list@));
}

fn push_text(output: &mut Vec<String>, text: String)
    ensures
        texts(final(output)@) == texts(old(output)@).push(text@),
{
    let ghost earlier = output@;
    output.push(text);
    assert(texts(output@) =~= texts(earlier).push(text@));
}

fn expand_argument(
    output: &mut Vec<String>,
    token: &Vec<char>,
    entry: &ExecFields,
    resources: &LaunchResources,
) -> (done: Result<(), SessionError>)
    ensures
        match expanded_argument(token@, entry@, resources@) {
            Ok(list) => done is Ok && texts(final(output)@) == texts(old(output)@) + list,
            Err(fault) => done is Err && (done->Err_0.kind, done->Err_0.message@) == fault,
        },
{
    proof {
        reveal_strlit("%F");
        reveal_strlit("%U");
        reveal_strlit("%i");
        assert("%F"@[1] == 'F' && "%U"@[1] == 'U' && "%i"@[1] == 'i');
    }
    let ghost before = texts(output@);
    if is_text(token.as_slice(), "%F") {
        push_all(output, &resources.files);
        return Ok(());
    }
    if is_text(token.as_slice(), "%U") {
        push_all(output, &resources.urls);
        return Ok(());
    }
    if is_text(token.as_slice(), "%i") {
        match entry.icon {
            Some(icon) => {
                push_text(output, "--icon".to_owned());
                push_text(output, icon.to_owned());
                assert(texts(output@) =~= before + seq!["--icon"@, icon@]);
            },
            None => {
                assert(texts(output@) =~= before + Seq::<Seq<char>>::empty());
            },
        }
        return Ok(());
    }
    match substitute_all(token, entry, resources) {
        Err(error) => Err(error),
        Ok(text) => {
            if chars_of(text.as_str()).len() > 0 {
                push_text(output, text);
                assert(texts(output@) =~= before + seq![text@]);
            } else {
                assert(texts(output@) =~= before + Seq::<Seq<char>>::empty());
            }
            Ok(())
        },
    }
}

/// The program and the arguments of a command line.
pub fn expand_exec(exec: &str, entry: &ExecFields, resources: &LaunchResources) -> (argv: Result<
    Vec<String>,
    SessionError,
>)
    ensures
        listed(argv) == expanded(exec@, entry@, resources@),
{
    let tokens = match tokenize(exec) {
        Ok(tokens) => tokens,
        Err(error) => return Err(error),
    };
    let ghost all = pieces(tokens@);
    assert(all.len() == tokens@.len());
    if tokens.len() == 0 {
        return invalid("Exec is empty");
    }
    let mut output: Vec<String> = Vec::new();
    assert(texts(output@) =~= Seq::empty());
    assert(all.skip(0) =~= all);
    for i in 0..tokens.len()
        invariant
            all == pieces(tokens@),
            tokens@.len() > 0,
            arguments_in(exec@) == Ok::<Seq<Seq<char>>, Fault>(all),
            expanded_arguments(all, Seq::empty(), entry@, resources@) == expanded_arguments(
                all.skip(i as int),
                texts(output@),
                entry@,
                resources@,
            ),
    {
        proof {
            assert(all.skip(i as int)[0] == tokens@[i as int]@);
            assert(all.skip(i as int).skip(1) =~= all.skip(i + 1));
        }
        match expand_argument(&mut output, &tokens[i], entry, resources) {
            Ok(()) => {},
            Err(error) => return Err(error),
        }
    }
    assert(all.skip(tokens@.len() as int) =~= Seq::empty());
    assert(texts(output@).len() == output@.len());
    if output.len() == 0 {
        return invalid("Exec has no program");
    }
    assert(texts(output@)[0] == output@[0]@);
    if chars_of(output[0].as_str()).len() == 0 {
        return invalid("Exec has no program");
    }
    Ok(output)
}

/// A command line that is accepted names a program.
pub proof fn accepted_command_lines_have_a_program(
    exec: Seq<char>,
    entry: EntryFields,
    resources: ResourcesView,
)
    ensures
        expanded(exec, entry, resources) is Ok ==> {
            let output = expanded(exec, entry, resources)->Ok_0;
            output.len() > 0 && output[0].len() > 0
        },
{
}

} // verus!
