//! What a guest learns at its first boot: the files of a cloud-init data
//! source with the environment and the mounts of a deployment.
use vstd::prelude::*;
use vstd::string::*;
use vstd::utf8::{encode_utf8, is_ascii_chars, is_ascii_chars_encode_utf8};
use crate::error::{RuntimeError, RuntimeErrorView};
use crate::foreign::{lossy_text, utf8_lossy};
use crate::models::EnvValue;
use crate::text::{cat2, cat3, cat4, cat5, cat6, chars_of, contains, lemma_encode_concat, occurs_at, str_pairs, strs, trim, trimmed};

verus! {

/// A shared directory that the guest mounts at boot.
#[derive(Debug)]
pub struct GuestMount {
    pub tag: String,
    pub destination: String,
    pub read_only: bool,
}

// ---------------------------------------------------------------------------
// Quoting
// ---------------------------------------------------------------------------

/// `v` with every single quote written so that a quoted string can hold it.
pub open spec fn quote_escaped(v: Seq<char>) -> Seq<char>
    decreases v.len(),
{
    if v.len() == 0 {
        seq![]
    } else if v.last() == '\'' {
        quote_escaped(v.drop_last()) + "'\\''"@
    } else {
        quote_escaped(v.drop_last()).push(v.last())
    }
}

/// `v` in single quotes.
pub open spec fn quoted(v: Seq<char>) -> Seq<char> {
    seq!['\''] + quote_escaped(v) + seq!['\'']
}

/// A value in single quotes; the single quotes in it are escaped as a shell
/// reads them.
pub fn shell_quote(v: &str) -> (r: String)
    ensures
        r@ == quoted(v@),
{
    let text = chars_of(v);
    let mut out = String::new();
    out.push('\'');
    let mut i: usize = 0;
    assert(out@ =~= seq!['\''] + quote_escaped(v@.take(0)));
    while i < text.len()
        invariant
            text@ == v@,
            i <= text.len(),
            out@ == seq!['\''] + quote_escaped(v@.take(i as int)),
        decreases text.len() - i,
    {
        assert(v@.take(i + 1).drop_last() =~= v@.take(i as int));
        if text[i] == '\'' {
            out.append("'\\''");
        } else {
            out.push(text[i]);
        }
        assert(out@ =~= seq!['\''] + quote_escaped(v@.take(i + 1)));
        i += 1;
    }
    assert(v@.take(v@.len() as int) =~= v@);
    out.push('\'');
    assert(out@ =~= quoted(v@));
    out
}

// ---------------------------------------------------------------------------
// Base64
// ---------------------------------------------------------------------------

/// The character of a six-bit value in the standard alphabet.
pub open spec fn b64_char(v: nat) -> char {
    if v < 26 {
        (65 + v) as char
    } else if v < 52 {
        (71 + v) as char
    } else if v < 62 {
        (v - 4) as char
    } else if v == 62 {
        '+'
    } else {
        '/'
    }
}

/// The base64 text of some bytes, with padding.
pub open spec fn base64_text(bytes: Seq<u8>) -> Seq<char>
    decreases bytes.len(),
{
    if bytes.len() == 0 {
        seq![]
    } else if bytes.len() == 1 {
        seq![
            b64_char((bytes[0] / 4) as nat),
            b64_char(((bytes[0] % 4) * 16) as nat),
            '=',
            '=',
        ]
    } else if bytes.len() == 2 {
        seq![
            b64_char((bytes[0] / 4) as nat),
            b64_char(((bytes[0] % 4) * 16 + bytes[1] / 16) as nat),
            b64_char(((bytes[1] % 16) * 4) as nat),
            '=',
        ]
    } else {
        seq![
            b64_char((bytes[0] / 4) as nat),
            b64_char(((bytes[0] % 4) * 16 + bytes[1] / 16) as nat),
            b64_char(((bytes[1] % 16) * 4 + bytes[2] / 64) as nat),
            b64_char((bytes[2] % 64) as nat),
        ] + base64_text(bytes.skip(3))
    }
}

/// The character of a six-bit value in the standard alphabet.
fn b64_digit(v: u8) -> (c: char)
    requires
        v < 64,
    ensures
        c == b64_char(v as nat),
{
    if v < 26 {
        (65 + v) as char
    } else if v < 52 {
        (71 + v) as char
    } else if v < 62 {
        (v - 4) as char
    } else if v == 62 {
        '+'
    } else {
        '/'
    }
}

/// The base64 text of a string's bytes, with padding.
pub fn base64_encode(input: &str) -> (r: String)
    ensures
        r@ == base64_text(encode_utf8(input@)),
{
    let bytes = input.as_bytes();
    let ghost all = encode_utf8(input@);
    let n: usize = bytes.len();
    let mut out = String::new();
    let mut i: usize = 0;
    assert(all.skip(0) =~= all);
    assert(out@ + base64_text(all) =~= base64_text(all));
    while n - i >= 3
        invariant
            bytes@ == all,
            n == bytes@.len(),
            i <= n,
            base64_text(all) == out@ + base64_text(all.skip(i as int)),
        decreases n - i,
    {
        let a: u8 = bytes[i];
        let b: u8 = bytes[i + 1];
        let c: u8 = bytes[i + 2];
        let ghost rest = all.skip(i as int);
        let ghost before = out@;
        assert(rest[0] == a && rest[1] == b && rest[2] == c);
        assert(rest.skip(3) =~= all.skip(i + 3));
        out.push(b64_digit(a / 4));
        out.push(b64_digit((a % 4) * 16 + b / 16));
        out.push(b64_digit((b % 16) * 4 + c / 64));
        out.push(b64_digit(c % 64));
        assert(before + base64_text(rest) =~= out@ + base64_text(all.skip(i + 3)));
        i += 3;
    }
    let ghost rest = all.skip(i as int);
    let ghost before = out@;
    if n - i == 1 {
        let a: u8 = bytes[i];
        assert(rest[0] == a);
        out.push(b64_digit(a / 4));
        out.push(b64_digit((a % 4) * 16));
        out.push('=');
        out.push('=');
    } else if n - i == 2 {
        let a: u8 = bytes[i];
        let b: u8 = bytes[i + 1];
        assert(rest[0] == a && rest[1] == b);
        out.push(b64_digit(a / 4));
        out.push(b64_digit((a % 4) * 16 + b / 16));
        out.push(b64_digit((b % 16) * 4));
        out.push('=');
    }
    assert(out@ =~= before + base64_text(rest));
    out
}

// ---------------------------------------------------------------------------
// The files
// ---------------------------------------------------------------------------

/// The meta data of an instance: its id, which is also its host name.
pub open spec fn meta_data(id: Seq<char>) -> Seq<char> {
    "instance-id: "@ + id + "\nlocal-hostname: "@ + id + "\n"@
}

/// The meta data of an instance.
pub fn render_meta_data(instance_id: &str) -> (r: String)
    ensures
        r@ == meta_data(instance_id@),
{
    cat5("instance-id: ", instance_id, "\nlocal-hostname: ", instance_id, "\n")
}

/// One `NAME='value'` line per variable, with `prefix` in front of each.
pub open spec fn assignments(prefix: Seq<char>, envs: Seq<(String, String)>) -> Seq<char>
    decreases envs.len(),
{
    if envs.len() == 0 {
        seq![]
    } else {
        assignments(prefix, envs.drop_last()) + (prefix + envs.last().0@ + "="@ + quoted(
            envs.last().1@,
        ) + "\n"@)
    }
}

/// The mount options of a shared directory.
pub open spec fn mount_options(m: GuestMount) -> Seq<char> {
    if m.read_only {
        "ro"@
    } else {
        "defaults"@
    }
}

/// The table entry of a shared directory.
pub open spec fn mount_entry(m: GuestMount) -> Seq<char> {
    "  - [\""@ + m.tag@ + "\", \""@ + m.destination@ + "\", \"virtiofs\", \""@ + mount_options(m)
        + "\", \"0\", \"0\"]\n"@
}

/// The commands that mount a shared directory at once.
pub open spec fn mount_commands(m: GuestMount) -> Seq<char> {
    "  - [mkdir, -p, \""@ + m.destination@ + "\"]\n  - [mount, -t, virtiofs, -o, \""@
        + mount_options(m) + "\", \""@ + m.tag@ + "\", \""@ + m.destination@ + "\"]\n"@
}

/// The table entries of all shared directories.
pub open spec fn mount_entries(mounts: Seq<GuestMount>) -> Seq<char>
    decreases mounts.len(),
{
    if mounts.len() == 0 {
        seq![]
    } else {
        mount_entries(mounts.drop_last()) + mount_entry(mounts.last())
    }
}

/// The commands for all shared directories.
pub open spec fn all_mount_commands(mounts: Seq<GuestMount>) -> Seq<char>
    decreases mounts.len(),
{
    if mounts.len() == 0 {
        seq![]
    } else {
        all_mount_commands(mounts.drop_last()) + mount_commands(mounts.last())
    }
}

/// The block that names the shared directories; nothing where there is none.
pub open spec fn mounts_block(mounts: Seq<GuestMount>) -> Seq<char> {
    if mounts.len() == 0 {
        seq![]
    } else {
        "mounts:\n"@ + mount_entries(mounts)
    }
}

/// The base64 text of a text's bytes.
pub open spec fn b64(text: Seq<char>) -> Seq<char> {
    base64_text(encode_utf8(text))
}

/// The user data of an instance: the environment as a file for services and as
/// a script for shells, both in base64 so that no value can upset the format,
/// and the shared directories.
pub open spec fn user_data(envs: Seq<(String, String)>, mounts: Seq<GuestMount>) -> Seq<char> {
    "#cloud-config\nwrite_files:\n  - path: /etc/ring/env\n    permissions: '0600'\n    encoding: b64\n    content: "@
        + b64(assignments(""@, envs))
        + "\n  - path: /etc/profile.d/ring-env.sh\n    permissions: '0644'\n    encoding: b64\n    content: "@
        + b64("# Auto-generated by Ring — do not edit.\n"@ + assignments("export "@, envs))
        + "\n  - path: /etc/systemd/system/service.d/ring-env.conf\n    permissions: '0644'\n    encoding: b64\n    content: "@
        + b64("[Service]\nEnvironmentFile=-/etc/ring/env\n"@) + "\n"@ + mounts_block(mounts)
        + "runcmd:\n"@ + ("  - [systemctl, daemon-reload]\n"@ + all_mount_commands(mounts))
}

/// One `NAME='value'` line per variable, with `prefix` in front of each.
fn render_assignments(prefix: &str, envs: &Vec<(String, String)>) -> (r: String)
    ensures
        r@ == assignments(prefix@, envs@),
{
    let mut out = String::new();
    let mut i: usize = 0;
    assert(out@ =~= assignments(prefix@, envs@.take(0)));
    while i < envs.len()
        invariant
            i <= envs.len(),
            out@ == assignments(prefix@, envs@.take(i as int)),
        decreases envs.len() - i,
    {
        assert(envs@.take(i + 1).drop_last() =~= envs@.take(i as int));
        let value = shell_quote(envs[i].1.as_str());
        let line = cat5(prefix, envs[i].0.as_str(), "=", value.as_str(), "\n");
        out.append(line.as_str());
        i += 1;
    }
    assert(envs@.take(envs.len() as int) =~= envs@);
    out
}

/// The user data of an instance.
pub fn render_user_data(envs: &Vec<(String, String)>, mounts: &Vec<GuestMount>) -> (r: String)
    ensures
        r@ == user_data(envs@, mounts@),
{
    let env_file = render_assignments("", envs);
    let exports = render_assignments("export ", envs);
    let profile = cat2("# Auto-generated by Ring — do not edit.\n", exports.as_str());
    let env_b64 = base64_encode(env_file.as_str());
    let profile_b64 = base64_encode(profile.as_str());
    let dropin_b64 = base64_encode("[Service]\nEnvironmentFile=-/etc/ring/env\n");
    let mut entries = String::new();
    let mut commands = String::new();
    let mut i: usize = 0;
    assert(entries@ =~= mount_entries(mounts@.take(0)));
    assert(commands@ =~= all_mount_commands(mounts@.take(0)));
    while i < mounts.len()
        invariant
            i <= mounts.len(),
            entries@ == mount_entries(mounts@.take(i as int)),
            commands@ == all_mount_commands(mounts@.take(i as int)),
        decreases mounts.len() - i,
    {
        assert(mounts@.take(i + 1).drop_last() =~= mounts@.take(i as int));
        let m = &mounts[i];
        let options = if m.read_only {
            "ro"
        } else {
            "defaults"
        };
        let mut entry = cat4("  - [\"", m.tag.as_str(), "\", \"", m.destination.as_str());
        entry.append("\", \"virtiofs\", \"");
        entry.append(options);
        entry.append("\", \"0\", \"0\"]\n");
        entries.append(entry.as_str());
        let mut command = cat4(
            "  - [mkdir, -p, \"",
            m.destination.as_str(),
            "\"]\n  - [mount, -t, virtiofs, -o, \"",
            options,
        );
        command.append("\", \"");
        command.append(m.tag.as_str());
        command.append("\", \"");
        command.append(m.destination.as_str());
        command.append("\"]\n");
        commands.append(command.as_str());
        i += 1;
    }
    assert(mounts@.take(mounts.len() as int) =~= mounts@);
    let block = if mounts.len() == 0 {
        String::new()
    } else {
        cat2("mounts:\n", entries.as_str())
    };
    assert(block@ =~= mounts_block(mounts@));
    let runcmd = cat2("  - [systemctl, daemon-reload]\n", commands.as_str());
    let mut out = cat6(
        "#cloud-config\nwrite_files:\n  - path: /etc/ring/env\n    permissions: '0600'\n    encoding: b64\n    content: ",
        env_b64.as_str(),
        "\n  - path: /etc/profile.d/ring-env.sh\n    permissions: '0644'\n    encoding: b64\n    content: ",
        profile_b64.as_str(),
        "\n  - path: /etc/systemd/system/service.d/ring-env.conf\n    permissions: '0644'\n    encoding: b64\n    content: ",
        dropin_b64.as_str(),
    );
    out.append("\n");
    out.append(block.as_str());
    out.append("runcmd:\n");
    out.append(runcmd.as_str());
    out
}

// ---------------------------------------------------------------------------
// The image
// ---------------------------------------------------------------------------

/// The first variable whose value is a reference; the number of variables
/// where there is none.
pub open spec fn first_secret(env: Seq<(String, EnvValue)>) -> int
    decreases env.len(),
{
    if env.len() == 0 || env[0].1 is SecretRef {
        0
    } else {
        1 + first_secret(env.skip(1))
    }
}

/// The names and the plain values of an environment.
pub open spec fn plain_pairs(env: Seq<(String, EnvValue)>) -> Seq<(Seq<char>, Seq<char>)> {
    env.map_values(
        |e: (String, EnvValue)|
            match e.1 {
                EnvValue::Plain(v) => (e.0@, v@),
                EnvValue::SecretRef { secret_ref } => (e.0@, secret_ref@),
            },
    )
}

/// Nothing before position `n` is a reference, so the first one is from there
/// on.
proof fn lemma_first_secret(env: Seq<(String, EnvValue)>, n: int)
    requires
        0 <= n <= env.len(),
        forall|j: int| 0 <= j < n ==> (#[trigger] env[j]).1 is Plain,
    ensures
        0 <= first_secret(env) <= env.len(),
        first_secret(env) >= n,
        n < env.len() && env[n].1 is SecretRef ==> first_secret(env) == n,
    decreases env.len(),
{
    if env.len() > 0 {
        let rest = env.skip(1);
        let m = if n == 0 {
            0
        } else {
            n - 1
        };
        assert forall|j: int| 0 <= j < m implies (#[trigger] rest[j]).1 is Plain by {
            assert(rest[j] == env[j + 1]);
        }
        lemma_first_secret(rest, m);
        if n > 0 {
            assert(env[0].1 is Plain);
        }
    }
}

/// The plain environment of a deployment. A reference must have been resolved
/// before a runtime sees it, so one that is left is an error.
pub fn resolved_environment(env: &Vec<(String, EnvValue)>) -> (r: Result<
    Vec<(String, String)>,
    RuntimeError,
>)
    ensures
        r is Ok <==> first_secret(env@) == env.len(),
        r matches Ok(list) ==> str_pairs(list@) == plain_pairs(env@),
        r matches Err(e) ==> e@ == RuntimeErrorView::Other(
            "unresolved secretRef for '"@ + env@[first_secret(env@)].0@
                + "' reached the cloud-hypervisor runtime"@,
        ),
{
    let mut out: Vec<(String, String)> = Vec::new();
    let mut i: usize = 0;
    while i < env.len()
        invariant
            i <= env.len(),
            out.len() == i,
            forall|j: int| 0 <= j < i ==> (#[trigger] env@[j]).1 is Plain,
            forall|j: int|
                0 <= j < i ==> (#[trigger] out@[j]).0@ == env@[j].0@ && env@[j].1
                    == EnvValue::Plain(out@[j].1),
        decreases env.len() - i,
    {
        match &env[i].1 {
            EnvValue::Plain(v) => {
                out.push((env[i].0.clone(), v.clone()));
            },
            EnvValue::SecretRef { secret_ref: _ } => {
                proof {
                    lemma_first_secret(env@, i as int);
                }
                return Err(
                    RuntimeError::Other(
                        cat3(
                            "unresolved secretRef for '",
                            env[i].0.as_str(),
                            "' reached the cloud-hypervisor runtime",
                        ),
                    ),
                );
            },
        }
        i += 1;
    }
    proof {
        lemma_first_secret(env@, env.len() as int);
    }
    assert(str_pairs(out@) =~= plain_pairs(env@));
    Ok(out)
}

/// The arguments of the program that writes the image from a directory. The
/// volume's name is what the guest looks for.
pub fn iso_arguments(iso_path: &str, staging: &str) -> (r: Vec<String>)
    ensures
        strs(r@) == seq![
            "-as"@,
            "mkisofs"@,
            "-output"@,
            iso_path@,
            "-volid"@,
            "CIDATA"@,
            "-joliet"@,
            "-rock"@,
            staging@,
        ],
{
    let mut out: Vec<String> = Vec::new();
    out.push("-as".to_owned());
    out.push("mkisofs".to_owned());
    out.push("-output".to_owned());
    out.push(iso_path.to_owned());
    out.push("-volid".to_owned());
    out.push("CIDATA".to_owned());
    out.push("-joliet".to_owned());
    out.push("-rock".to_owned());
    out.push(staging.to_owned());
    assert(strs(out@) =~= seq![
        "-as"@,
        "mkisofs"@,
        "-output"@,
        iso_path@,
        "-volid"@,
        "CIDATA"@,
        "-joliet"@,
        "-rock"@,
        staging@,
    ]);
    out
}

/// The error for the program that could not be run.
pub fn iso_tool_missing(text: &str) -> (r: RuntimeError)
    ensures
        r@ == RuntimeErrorView::Other(
            "xorriso not available: "@ + text@ + " (install xorriso package)"@,
        ),
{
    RuntimeError::Other(cat3("xorriso not available: ", text, " (install xorriso package)"))
}

/// The error for the program that failed, given what it wrote.
pub fn iso_tool_failed(stderr: &[u8]) -> (r: RuntimeError)
    ensures
        r@ == RuntimeErrorView::Other("xorriso failed: "@ + trimmed(lossy_text(stderr@))),
{
    let text = utf8_lossy(stderr);
    let text = trim(text.as_str());
    RuntimeError::Other(cat2("xorriso failed: ", text.as_str()))
}

// ---------------------------------------------------------------------------
// Laws
// ---------------------------------------------------------------------------

/// Different values are quoted differently: nothing of a value is lost.
pub proof fn law_quoting_is_injective(a: Seq<char>, b: Seq<char>)
    requires
        quoted(a) == quoted(b),
    ensures
        a == b,
{
    law_shell_reads_the_value_back(a);
    law_shell_reads_the_value_back(b);
}

/// Different bytes have different base64 texts: nothing of them is lost.
pub proof fn law_base64_is_injective(a: Seq<u8>, b: Seq<u8>)
    requires
        base64_text(a) == base64_text(b),
    ensures
        a == b,
{
    law_base64_reads_back(a);
    law_base64_reads_back(b);
}

/// Whether a character that is not quoted stands for itself in a shell. Others
/// may separate words or have a meaning of their own.
pub open spec fn is_bare(c: char) -> bool {
    ||| 'a' <= c <= 'z'
    ||| 'A' <= c <= 'Z'
    ||| '0' <= c <= '9'
    ||| c == '_' || c == '-' || c == '.' || c == '/'
}

/// A word with some characters in front of it.
pub open spec fn with_front(front: Seq<char>, word: Option<Seq<char>>) -> Option<Seq<char>> {
    match word {
        Some(rest) => Some(front + rest),
        None => None,
    }
}

/// What a shell makes of the rest of a word, `inside` single quotes or not: in
/// them every character but the closing quote stands for itself; outside, a
/// backslash makes the next character stand for itself. `None` where a quote is
/// not closed, or where the text is not the rest of one word.
pub open spec fn shell_read(text: Seq<char>, inside: bool) -> Option<Seq<char>>
    decreases text.len(),
{
    if text.len() == 0 {
        if inside {
            None
        } else {
            Some(seq![])
        }
    } else {
        let c = text[0];
        let rest = text.skip(1);
        if c == '\'' {
            shell_read(rest, !inside)
        } else if inside {
            with_front(seq![c], shell_read(rest, true))
        } else if c == '\\' {
            if rest.len() == 0 || rest[0] == '\n' {
                None
            } else {
                with_front(seq![rest[0]], shell_read(rest.skip(1), false))
            }
        } else if is_bare(c) {
            with_front(seq![c], shell_read(rest, false))
        } else {
            None
        }
    }
}

/// The word that a shell reads a text as, where it is one word.
pub open spec fn shell_word(text: Seq<char>) -> Option<Seq<char>> {
    if text.len() == 0 {
        None
    } else {
        shell_read(text, false)
    }
}

/// How many single quotes a text holds.
pub open spec fn single_quotes(v: Seq<char>) -> nat
    decreases v.len(),
{
    if v.len() == 0 {
        0
    } else {
        single_quotes(v.drop_last()) + if v.last() == '\'' {
            1nat
        } else {
            0nat
        }
    }
}

/// Inside single quotes, a shell reads an escaped value back as the value.
proof fn lemma_escaped_is_read_back(v: Seq<char>, text: Seq<char>)
    ensures
        shell_read(quote_escaped(v) + text, true) == with_front(v, shell_read(text, true)),
    decreases v.len(),
{
    reveal_strlit("'\\''");
    let after = shell_read(text, true);
    if v.len() == 0 {
        assert(quote_escaped(v) + text =~= text);
        assert(after matches Some(w) ==> v + w =~= w);
    } else {
        let front = v.drop_last();
        let c = v.last();
        let step = if c == '\'' {
            "'\\''"@ + text
        } else {
            seq![c] + text
        };
        assert(quote_escaped(v) + text =~= quote_escaped(front) + step);
        lemma_escaped_is_read_back(front, step);
        if c == '\'' {
            let out = step.skip(1);
            let escaped = out.skip(1);
            let back = escaped.skip(1);
            assert(step[0] == '\'' && out[0] == '\\' && escaped[0] == '\'' && back[0] == '\'');
            assert(back.skip(1) =~= text);
            assert(shell_read(back, false) == after);
            assert(shell_read(out, false) == with_front(seq!['\''], after));
            assert(shell_read(step, true) == with_front(seq![c], after));
        } else {
            assert(step.skip(1) =~= text);
            assert(shell_read(step, true) == with_front(seq![c], after));
        }
        assert(after matches Some(w) ==> front + (seq![c] + w) =~= v + w);
    }
}

/// A shell reads a quoted value as one word, which is the value, whatever
/// characters it holds. Quoting adds the two quotes, and three characters for
/// each single quote in the value.
pub proof fn law_shell_reads_the_value_back(v: Seq<char>)
    ensures
        shell_word(quoted(v)) == Some(v),
        quoted(v).len() == v.len() + 2 + 3 * single_quotes(v),
{
    let text = quoted(v);
    let close = seq!['\''];
    assert(text.skip(1) =~= quote_escaped(v) + close);
    lemma_escaped_is_read_back(v, close);
    assert(close.skip(1) =~= seq![]);
    assert(shell_read(close.skip(1), false) == Some(Seq::<char>::empty()));
    assert(shell_read(close, true) == Some(Seq::<char>::empty()));
    assert(v + Seq::<char>::empty() =~= v);
    lemma_escaped_len(v);
}

/// Escaping adds three characters for each single quote.
proof fn lemma_escaped_len(v: Seq<char>)
    ensures
        quote_escaped(v).len() == v.len() + 3 * single_quotes(v),
    decreases v.len(),
{
    reveal_strlit("'\\''");
    if v.len() > 0 {
        lemma_escaped_len(v.drop_last());
    }
}

/// The six-bit value of a character of the standard alphabet.
pub open spec fn b64_value(c: char) -> Option<nat> {
    if 'A' <= c <= 'Z' {
        Some((c as int - 65) as nat)
    } else if 'a' <= c <= 'z' {
        Some((c as int - 71) as nat)
    } else if '0' <= c <= '9' {
        Some((c as int + 4) as nat)
    } else if c == '+' {
        Some(62)
    } else if c == '/' {
        Some(63)
    } else {
        None
    }
}

/// The bytes that a base64 text stands for, four characters at a time; the last
/// four may end in one or two characters of padding.
pub open spec fn base64_bytes(text: Seq<char>) -> Option<Seq<u8>>
    decreases text.len(),
{
    if text.len() == 0 {
        Some(seq![])
    } else if text.len() < 4 {
        None
    } else {
        match (b64_value(text[0]), b64_value(text[1])) {
            (Some(a), Some(b)) => {
                let first = (a * 4 + b / 16) as u8;
                match (b64_value(text[2]), b64_value(text[3])) {
                    (Some(c), Some(d)) => match base64_bytes(text.skip(4)) {
                        Some(rest) => Some(
                            seq![first, ((b % 16) * 16 + c / 4) as u8, ((c % 4) * 64 + d) as u8]
                                + rest,
                        ),
                        None => None,
                    },
                    (Some(c), None) => if text.len() == 4 && text[3] == '=' {
                        Some(seq![first, ((b % 16) * 16 + c / 4) as u8])
                    } else {
                        None
                    },
                    (None, None) => if text.len() == 4 && text[2] == '=' && text[3] == '=' {
                        Some(seq![first])
                    } else {
                        None
                    },
                    _ => None,
                }
            },
            _ => None,
        }
    }
}

/// The character of a six-bit value stands for that value.
proof fn lemma_b64_value(v: nat)
    requires
        v < 64,
    ensures
        b64_value(b64_char(v)) == Some(v),
{
}

/// How many characters of padding the base64 text of `n` bytes ends in.
pub open spec fn padding(n: nat) -> nat {
    ((3 - n % 3) % 3) as nat
}

/// Decoding a base64 text gives the bytes back.
pub proof fn law_base64_reads_back(bytes: Seq<u8>)
    ensures
        base64_bytes(base64_text(bytes)) == Some(bytes),
    decreases bytes.len(),
{
    let text = base64_text(bytes);
    if bytes.len() > 0 {
        let a = bytes[0];
        let b = if bytes.len() > 1 {
            bytes[1]
        } else {
            0u8
        };
        let c = if bytes.len() > 2 {
            bytes[2]
        } else {
            0u8
        };
        let v0 = (a / 4) as nat;
        let v1 = ((a % 4) * 16 + b / 16) as nat;
        let v2 = ((b % 16) * 4 + c / 64) as nat;
        let v3 = (c % 64) as nat;
        lemma_b64_value(v0);
        lemma_b64_value(v1);
        lemma_b64_value(v2);
        lemma_b64_value(v3);
        assert(v0 * 4 + v1 / 16 == a);
        assert((v1 % 16) * 16 + v2 / 4 == b);
        assert((v2 % 4) * 64 + v3 == c);
        assert(text[0] == b64_char(v0) && text[1] == b64_char(v1));
        if bytes.len() >= 3 {
            let rest = bytes.skip(3);
            law_base64_reads_back(rest);
            assert(text[2] == b64_char(v2) && text[3] == b64_char(v3));
            assert(text.skip(4) =~= base64_text(rest));
            assert(seq![a, b, c] + rest =~= bytes);
        } else if bytes.len() == 2 {
            assert(text[2] == b64_char(v2) && text[3] == '=');
            assert(seq![a, b] =~= bytes);
        } else {
            assert(text[2] == '=' && text[3] == '=');
            assert(seq![a] =~= bytes);
        }
    } else {
        assert(bytes =~= seq![]);
    }
}

/// A base64 text has four characters for every three bytes that were begun. The
/// last ones are padding, as many as bytes are missing to a multiple of three,
/// and all others are of the alphabet.
pub proof fn law_base64_form(bytes: Seq<u8>)
    ensures
        base64_text(bytes).len() == 4 * ((bytes.len() + 2) / 3),
        padding(bytes.len()) <= base64_text(bytes).len(),
        forall|i: int|
            0 <= i < base64_text(bytes).len() ==> if i < base64_text(bytes).len() - padding(
                bytes.len(),
            ) {
                b64_value(#[trigger] base64_text(bytes)[i]) is Some
            } else {
                base64_text(bytes)[i] == '='
            },
    decreases bytes.len(),
{
    let text = base64_text(bytes);
    if bytes.len() >= 3 {
        let rest = bytes.skip(3);
        let tail = base64_text(rest);
        law_base64_form(rest);
        let group = text.take(4);
        lemma_b64_value((bytes[0] / 4) as nat);
        lemma_b64_value(((bytes[0] % 4) * 16 + bytes[1] / 16) as nat);
        lemma_b64_value(((bytes[1] % 16) * 4 + bytes[2] / 64) as nat);
        lemma_b64_value((bytes[2] % 64) as nat);
        assert(padding(bytes.len()) == padding(rest.len()));
        assert forall|i: int| 0 <= i < text.len() implies if i < text.len() - padding(bytes.len()) {
            b64_value(#[trigger] text[i]) is Some
        } else {
            text[i] == '='
        } by {
            if i >= 4 {
                assert(text[i] == tail[i - 4]);
            }
        }
    } else if bytes.len() == 2 {
        lemma_b64_value((bytes[0] / 4) as nat);
        lemma_b64_value(((bytes[0] % 4) * 16 + bytes[1] / 16) as nat);
        lemma_b64_value(((bytes[1] % 16) * 4) as nat);
    } else if bytes.len() == 1 {
        lemma_b64_value((bytes[0] / 4) as nat);
        lemma_b64_value(((bytes[0] % 4) * 16) as nat);
    }
}

/// Where the first part is a whole number of groups of three bytes, the base64
/// texts of two parts make up that of the whole.
pub proof fn law_base64_groups_concatenate(a: Seq<u8>, b: Seq<u8>)
    requires
        a.len() % 3 == 0,
    ensures
        base64_text(a + b) == base64_text(a) + base64_text(b),
    decreases a.len(),
{
    if a.len() == 0 {
        assert(a + b =~= b);
        assert(base64_text(a) + base64_text(b) =~= base64_text(b));
    } else {
        law_base64_groups_concatenate(a.skip(3), b);
        assert((a + b).skip(3) =~= a.skip(3) + b);
        assert(base64_text(a + b) =~= base64_text(a) + base64_text(b));
    }
}

/// The same of texts: where the first one has a whole number of groups of three
/// bytes, encoding one behind the other is encoding both together.
pub proof fn law_base64_texts_concatenate(s: Seq<char>, t: Seq<char>)
    requires
        encode_utf8(s).len() % 3 == 0,
    ensures
        b64(s + t) == b64(s) + b64(t),
{
    lemma_encode_concat(s, t);
    law_base64_groups_concatenate(encode_utf8(s), encode_utf8(t));
}

/// An environment is handed to a guest exactly where every value is plain, and
/// then name by name and value by value in its order. Otherwise the error names
/// the first variable that is not, at place `at`.
pub proof fn law_only_plain_values_reach_a_guest(
    env: &Vec<(String, EnvValue)>,
    at: int,
    r: Result<Vec<(String, String)>, RuntimeError>,
)
    requires
        0 <= at <= env@.len(),
        forall|j: int| 0 <= j < at ==> (#[trigger] env@[j]).1 is Plain,
        at < env@.len() ==> env@[at].1 is SecretRef,
        call_ensures(resolved_environment, (env,), r),
    ensures
        r is Ok <==> at == env@.len(),
        r matches Ok(list) ==> list@.len() == env@.len() && forall|i: int|
            0 <= i < list@.len() ==> (#[trigger] list@[i]).0@ == env@[i].0@ && list@[i].1@
                == env@[i].1->Plain_0@,
        r matches Err(e) ==> ("unresolved secretRef for '"@ + env@[at].0@).is_prefix_of(
            e@->Other_0,
        ),
{
    lemma_first_secret(env@, at);
    if let Ok(list) = r {
        let pairs = plain_pairs(env@);
        assert(str_pairs(list@).len() == list@.len());
        assert forall|i: int| 0 <= i < list@.len() implies (#[trigger] list@[i]).0@ == env@[i].0@
            && list@[i].1@ == env@[i].1->Plain_0@ by {
            assert(str_pairs(list@)[i] == (list@[i].0@, list@[i].1@));
            assert(pairs[i] == (env@[i].0@, env@[i].1->Plain_0@));
        }
    }
    if let Err(e) = r {
        let head = "unresolved secretRef for '"@ + env@[at].0@;
        let text = e@->Other_0;
        assert(text.subrange(0, head.len() as int) =~= head);
    }
}

/// A guest is told to mount every shared directory at its destination, read-only
/// exactly where it is declared so, at once and at every later boot. One more
/// directory adds its command at the end of the user data, and its entry to the
/// table.
pub proof fn law_guest_mounts_every_share(
    envs: &Vec<(String, String)>,
    mounts: &Vec<GuestMount>,
    more: &Vec<GuestMount>,
    last: GuestMount,
    before: String,
    after: String,
)
    requires
        more@ == mounts@.push(last),
        call_ensures(render_user_data, (envs, mounts), before),
        call_ensures(render_user_data, (envs, more), after),
    ensures
        ({
            let options = if last.read_only {
                "ro"@
            } else {
                "defaults"@
            };
            let command = "\"]\n  - [mount, -t, virtiofs, -o, \""@ + options + "\", \""@ + last.tag@
                + "\", \""@ + last.destination@ + "\"]\n"@;
            let entry = "  - [\""@ + last.tag@ + "\", \""@ + last.destination@
                + "\", \"virtiofs\", \""@ + options + "\", \"0\", \"0\"]\n"@;
            &&& ("  - [mkdir, -p, \""@ + last.destination@ + command).is_suffix_of(after@)
            &&& contains(after@, entry + "runcmd:\n"@)
        }),
        mounts@.len() == 0 ==> "runcmd:\n  - [systemctl, daemon-reload]\n"@.is_suffix_of(before@),
{
    assert(more@.drop_last() =~= mounts@);
    let options = mount_options(last);
    let command = "\"]\n  - [mount, -t, virtiofs, -o, \""@ + options + "\", \""@ + last.tag@
        + "\", \""@ + last.destination@ + "\"]\n"@;
    let tail = "  - [mkdir, -p, \""@ + last.destination@ + command;
    assert(tail =~= mount_commands(last));
    assert(after@.subrange(after@.len() - tail.len(), after@.len() as int) =~= tail);
    let entry = mount_entry(last);
    let needle = entry + "runcmd:\n"@;
    let rest = "  - [systemctl, daemon-reload]\n"@ + all_mount_commands(more@);
    let i = after@.len() - rest.len() - needle.len();
    assert(after@.subrange(i, i + needle.len()) =~= needle);
    assert(occurs_at(after@, needle, i));
    if mounts@.len() == 0 {
        reveal_strlit("runcmd:\n");
        reveal_strlit("  - [systemctl, daemon-reload]\n");
        reveal_strlit("runcmd:\n  - [systemctl, daemon-reload]\n");
        let end = "runcmd:\n  - [systemctl, daemon-reload]\n"@;
        assert("runcmd:\n"@ + ("  - [systemctl, daemon-reload]\n"@ + all_mount_commands(mounts@))
            =~= end);
        assert(before@.subrange(before@.len() - end.len(), before@.len() as int) =~= end);
    }
}

/// A quoted value begins and ends with a quote. One more character at its end is
/// put before the closing quote, as it is; a quote is closed, escaped and opened
/// again.
pub proof fn law_value_is_quoted_character_by_character(
    v: &str,
    longer: &str,
    c: char,
    r: String,
    after: String,
)
    requires
        longer@ == v@.push(c),
        call_ensures(shell_quote, (v,), r),
        call_ensures(shell_quote, (longer,), after),
    ensures
        v@.len() == 0 ==> r@ == seq!['\'', '\''],
        r@.len() >= 2 && r@[0] == '\'' && r@.last() == '\'',
        c != '\'' ==> after@ == r@.drop_last() + seq![c, '\''],
        c == '\'' ==> after@ == r@.drop_last() + seq!['\'', '\\', '\'', '\'', '\''],
{
    reveal_strlit("'\\''");
    assert(longer@.drop_last() =~= v@);
    assert(r@.drop_last() =~= seq!['\''] + quote_escaped(v@));
    if c == '\'' {
        assert("'\\''"@ =~= seq!['\'', '\\', '\'', '\'']);
        assert(after@ =~= r@.drop_last() + seq!['\'', '\\', '\'', '\'', '\'']);
    } else {
        assert(after@ =~= r@.drop_last() + seq![c, '\'']);
    }
    if v@.len() == 0 {
        assert(r@ =~= seq!['\'', '\'']);
    }
}

/// Three characters of one byte each in front of a text are four characters of the
/// alphabet in front of its base64 text: each six bits of the three bytes, the
/// highest first, stand for one.
pub proof fn law_three_bytes_are_four_characters(
    a: char,
    b: char,
    c: char,
    rest: &str,
    s: &str,
    n: (int, int, int, int),
    r: String,
    after: String,
)
    requires
        (a as u32) < 0x80 && (b as u32) < 0x80 && (c as u32) < 0x80,
        s@ == seq![a, b, c] + rest@,
        0 <= n.0 < 64 && 0 <= n.1 < 64 && 0 <= n.2 < 64 && 0 <= n.3 < 64,
        n.0 * 262144 + n.1 * 4096 + n.2 * 64 + n.3 == a as int * 65536 + b as int * 256 + c as int,
        call_ensures(base64_encode, (rest,), r),
        call_ensures(base64_encode, (s,), after),
    ensures
        ({
            let alphabet = "ABCDEFGHIJKLMNOPQRSTUVWXYZabcdefghijklmnopqrstuvwxyz0123456789+/"@;
            after@ == seq![alphabet[n.0], alphabet[n.1], alphabet[n.2], alphabet[n.3]] + r@
        }),
        rest@.len() == 0 ==> r@.len() == 0,
{
    let three = seq![a, b, c];
    assert(is_ascii_chars(three));
    is_ascii_chars_encode_utf8(three);
    lemma_encode_concat(three, rest@);
    let bytes = encode_utf8(s@);
    let front = encode_utf8(three);
    assert(front[0] == a as u8 && front[1] == b as u8 && front[2] == c as u8) by {
        assert(three[0] == a && three[1] == b && three[2] == c);
    }
    assert(bytes.skip(3) =~= encode_utf8(rest@));
    assert(bytes[0] == a as u8 && bytes[1] == b as u8 && bytes[2] == c as u8);
    lemma_alphabet(n.0);
    lemma_alphabet(n.1);
    lemma_alphabet(n.2);
    lemma_alphabet(n.3);
    lemma_six_bits(a as nat, b as nat, c as nat, n.0, n.1, n.2, n.3);
    if rest@.len() == 0 {
        assert(rest@ =~= Seq::<char>::empty());
        assert(encode_utf8(rest@).len() == 0);
    }
}

/// The four groups of six bits in three bytes.
proof fn lemma_six_bits(a: nat, b: nat, c: nat, n0: int, n1: int, n2: int, n3: int)
    requires
        a < 128 && b < 128 && c < 128,
        0 <= n0 < 64 && 0 <= n1 < 64 && 0 <= n2 < 64 && 0 <= n3 < 64,
        n0 * 262144 + n1 * 4096 + n2 * 64 + n3 == a * 65536 + b * 256 + c,
    ensures
        a / 4 == n0,
        (a % 4) * 16 + b / 16 == n1,
        (b % 16) * 4 + c / 64 == n2,
        c % 64 == n3,
{
    let x = a * 65536 + b * 256 + c;
    let y = (a / 4) * 262144 + ((a % 4) * 16 + b / 16) * 4096 + ((b % 16) * 4 + c / 64) * 64 + c
        % 64;
    assert(x == y);
}

/// The characters of the alphabet.
proof fn lemma_alphabet(v: int)
    requires
        0 <= v < 64,
    ensures
        "ABCDEFGHIJKLMNOPQRSTUVWXYZabcdefghijklmnopqrstuvwxyz0123456789+/"@[v] == b64_char(
            v as nat,
        ),
{
    reveal_strlit("ABCDEFGHIJKLMNOPQRSTUVWXYZabcdefghijklmnopqrstuvwxyz0123456789+/");
}

/// A guest is told its id twice, as its own and as its name in the network, each on
/// a line of its own.
pub proof fn law_guest_is_named_after_its_instance(id: &str, r: String)
    requires
        call_ensures(render_meta_data, (id,), r),
    ensures
        ("instance-id: "@ + id@ + "\n"@).is_prefix_of(r@),
        ("\nlocal-hostname: "@ + id@ + "\n"@).is_suffix_of(r@),
{
    reveal_strlit("\n");
    reveal_strlit("\nlocal-hostname: ");
    let head = "instance-id: "@ + id@ + "\n"@;
    let tail = "\nlocal-hostname: "@ + id@ + "\n"@;
    assert(r@.subrange(0, head.len() as int) =~= head);
    assert(r@.subrange(r@.len() - tail.len(), r@.len() as int) =~= tail);
}

/// A guest with one variable is given it twice, in base64: as a line for services, in a
/// file that only its owner reads, and as an exported one for shells.
pub proof fn law_guest_is_given_its_variables(
    envs: &Vec<(String, String)>,
    mounts: &Vec<GuestMount>,
    value: &str,
    shown: String,
    line: &str,
    script: &str,
    line_text: String,
    script_text: String,
    r: String,
)
    requires
        envs@.len() == 1,
        value@ == envs@[0].1@,
        call_ensures(shell_quote, (value,), shown),
        line@ == envs@[0].0@ + "="@ + shown@ + "\n"@,
        script@ == "# Auto-generated by Ring — do not edit.\n"@ + ("export "@ + envs@[0].0@ + "="@
            + shown@ + "\n"@),
        call_ensures(base64_encode, (line,), line_text),
        call_ensures(base64_encode, (script,), script_text),
        call_ensures(render_user_data, (envs, mounts), r),
    ensures
        ("#cloud-config\nwrite_files:\n  - path: /etc/ring/env\n    permissions: '0600'\n    encoding: b64\n    content: "@
            + line_text@ + "\n"@).is_prefix_of(r@),
        contains(r@, script_text@),
{
    let one = envs@;
    assert(one.drop_last() =~= Seq::<(String, String)>::empty());
    assert(one.last() == one[0]);
    let none = Seq::<(String, String)>::empty();
    assert(assignments(""@, none) =~= Seq::<char>::empty());
    assert(assignments("export "@, none) =~= Seq::<char>::empty());
    reveal_strlit("");
    assert(assignments(""@, one) =~= line@);
    assert(assignments("export "@, one) =~= "export "@ + one[0].0@ + "="@ + shown@ + "\n"@);
    assert("# Auto-generated by Ring — do not edit.\n"@ + assignments("export "@, one) == script@);
    let a = "#cloud-config\nwrite_files:\n  - path: /etc/ring/env\n    permissions: '0600'\n    encoding: b64\n    content: "@;
    let b = "\n  - path: /etc/profile.d/ring-env.sh\n    permissions: '0644'\n    encoding: b64\n    content: "@;
    reveal_strlit("\n");
    reveal_strlit(
        "\n  - path: /etc/profile.d/ring-env.sh\n    permissions: '0644'\n    encoding: b64\n    content: ",
    );
    assert(b[0] == '\n');
    let head = a + line_text@ + "\n"@;
    assert(r@.subrange(0, head.len() as int) =~= head);
    let k = (a.len() + line_text@.len() + b.len()) as int;
    assert(r@.subrange(k, k + script_text@.len()) =~= script_text@);
    assert(occurs_at(r@, script_text@, k));
}

} // verus!
