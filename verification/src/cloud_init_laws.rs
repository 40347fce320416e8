//! What holds of every seed.
use vstd::prelude::*;

#[allow(unused_imports)]
use crate::cloud_init::{
    effective_password, extra_text, first_of, hash_of, iso_options, iso_tool, key_lines, keys_block,
    meta_data, password_lines, server_lines, servers_of, user_data, SeedSpec,
};
#[allow(unused_imports)]
use crate::text::trim;

verus! {

/// The parts of a configuration, as they follow each other.
proof fn lemma_parts(s: SeedSpec, hash: Option<Seq<char>>)
    ensures
        user_data(s, hash) == (match hash {
            Some(h) => "#cloud-config\nssh_pwauth: true\nusers:\n  - name: "@,
            None => "#cloud-config\nusers:\n  - name: "@,
        }) + (match s.user {
            Some(u) => u@,
            None => "bhx"@,
        }) + "\n    sudo: ALL=(ALL) NOPASSWD:ALL\n    shell: /bin/bash\n"@ + password_lines(hash)
            + keys_block(s.ssh_keys@)
            + "bootcmd:\n  - [ sh, -c, 'rm -f /etc/resolv.conf && (\n"@ + server_lines(
            servers_of(s),
        ) + "    ) > /etc/resolv.conf' ]\n"@ + extra_text(s.extra_user_data),
{
    reveal_strlit("#cloud-config\n");
    reveal_strlit("ssh_pwauth: true\n");
    reveal_strlit("users:\n");
    reveal_strlit("  - name: ");
    reveal_strlit("#cloud-config\nssh_pwauth: true\nusers:\n  - name: ");
    reveal_strlit("#cloud-config\nusers:\n  - name: ");
    assert("#cloud-config\nssh_pwauth: true\nusers:\n  - name: "@ =~= "#cloud-config\n"@
        + "ssh_pwauth: true\n"@ + "users:\n"@ + "  - name: "@);
    assert("#cloud-config\nusers:\n  - name: "@ =~= "#cloud-config\n"@ + Seq::<char>::empty()
        + "users:\n"@ + "  - name: "@);
    reveal_strlit("\n");
    reveal_strlit("    sudo: ALL=(ALL) NOPASSWD:ALL\n");
    reveal_strlit("    shell: /bin/bash\n");
    reveal_strlit("\n    sudo: ALL=(ALL) NOPASSWD:ALL\n    shell: /bin/bash\n");
    assert("\n    sudo: ALL=(ALL) NOPASSWD:ALL\n    shell: /bin/bash\n"@ =~= "\n"@
        + "    sudo: ALL=(ALL) NOPASSWD:ALL\n"@ + "    shell: /bin/bash\n"@);
    reveal_strlit("bootcmd:\n");
    reveal_strlit("  - [ sh, -c, 'rm -f /etc/resolv.conf && (\n");
    reveal_strlit("bootcmd:\n  - [ sh, -c, 'rm -f /etc/resolv.conf && (\n");
    assert("bootcmd:\n  - [ sh, -c, 'rm -f /etc/resolv.conf && (\n"@ =~= "bootcmd:\n"@
        + "  - [ sh, -c, 'rm -f /etc/resolv.conf && (\n"@);
    lemma_regroup(
        user_data(s, hash),
        if hash is Some {
            "#cloud-config\n"@ + "ssh_pwauth: true\n"@ + "users:\n"@ + "  - name: "@
        } else {
            "#cloud-config\n"@ + Seq::<char>::empty() + "users:\n"@ + "  - name: "@
        },
        match s.user {
            Some(u) => u@,
            None => "bhx"@,
        },
        "\n"@,
        "    sudo: ALL=(ALL) NOPASSWD:ALL\n"@,
        "    shell: /bin/bash\n"@,
        password_lines(hash) ,
        keys_block(s.ssh_keys@),
        "bootcmd:\n"@,
        "  - [ sh, -c, 'rm -f /etc/resolv.conf && (\n"@,
        server_lines(servers_of(s)),
        "    ) > /etc/resolv.conf' ]\n"@,
        extra_text(s.extra_user_data),
    );
}

proof fn lemma_regroup(
    all: Seq<char>,
    a: Seq<char>,
    b: Seq<char>,
    c: Seq<char>,
    d: Seq<char>,
    e: Seq<char>,
    f: Seq<char>,
    g: Seq<char>,
    h: Seq<char>,
    i: Seq<char>,
    j: Seq<char>,
    k: Seq<char>,
    l: Seq<char>,
)
    requires
        all == a + b + c + d + e + f + g + h + i + j + k + l,
    ensures
        all == a + b + (c + d + e) + f + g + (h + i) + j + k + l,
{
    assert(a + b + (c + d + e) =~= a + b + c + d + e);
    let x = a + b + c + d + e + f + g;
    assert(x + (h + i) =~= x + h + i);
}

proof fn lemma_begins(
    head: Seq<char>,
    a: Seq<char>,
    b: Seq<char>,
    c: Seq<char>,
    d: Seq<char>,
    e: Seq<char>,
)
    ensures
        head.is_prefix_of(head + a + b + c + d + e),
{
    let whole = head + a + b + c + d + e;
    assert(head =~= whole.subrange(0, head.len() as int));
}

proof fn lemma_prefix_of_prefix(a: Seq<char>, b: Seq<char>, c: Seq<char>)
    requires
        a.is_prefix_of(b),
        b.is_prefix_of(c),
    ensures
        a.is_prefix_of(c),
{
    assert(a =~= c.subrange(0, a.len() as int)) by {
        assert(forall|i: int| 0 <= i < a.len() ==> a[i] == b.subrange(0, a.len() as int)[i]);
        assert(forall|i: int| 0 <= i < b.len() ==> b[i] == c.subrange(0, b.len() as int)[i]);
    }
}

/// The lines about the user, with the hash or without.
#[verifier::rlimit(40)]
proof fn lemma_user_block(user: Seq<char>, hash: Option<Seq<char>>)
    ensures
        hash matches Some(h) ==> {
            let begin = "#cloud-config\nssh_pwauth: true\nusers:\n  - name: "@;
            let head = begin + user + "\n    sudo: ALL=(ALL) NOPASSWD:ALL\n    shell: /bin/bash\n"@
                + password_lines(hash);
            &&& head == begin + user
                + "\n    sudo: ALL=(ALL) NOPASSWD:ALL\n    shell: /bin/bash\n    lock_passwd: false\n    passwd: '"@
                + h + "'\n"@
            &&& "#cloud-config\nssh_pwauth: true\n"@.is_prefix_of(head)
        },
        hash is None ==> {
            let begin = "#cloud-config\nusers:\n  - name: "@;
            let head = begin + user + "\n    sudo: ALL=(ALL) NOPASSWD:ALL\n    shell: /bin/bash\n"@
                + password_lines(hash);
            &&& head == begin + user
                + "\n    sudo: ALL=(ALL) NOPASSWD:ALL\n    shell: /bin/bash\n    lock_passwd: true\n"@
            &&& "#cloud-config\nusers:\n"@.is_prefix_of(head)
        },
{
    let shell = "\n    sudo: ALL=(ALL) NOPASSWD:ALL\n    shell: /bin/bash\n"@;
    match hash {
        Some(h) => {
            let begin = "#cloud-config\nssh_pwauth: true\nusers:\n  - name: "@;
            let open = "    lock_passwd: false\n"@;
            let quote = "    passwd: '"@;
            let joint =
                "\n    sudo: ALL=(ALL) NOPASSWD:ALL\n    shell: /bin/bash\n    lock_passwd: false\n    passwd: '"@;
            assert(joint == shell + open + quote) by {
                reveal_strlit("\n    sudo: ALL=(ALL) NOPASSWD:ALL\n    shell: /bin/bash\n");
                reveal_strlit("    lock_passwd: false\n");
                reveal_strlit("    passwd: '");
                reveal_strlit(
                    "\n    sudo: ALL=(ALL) NOPASSWD:ALL\n    shell: /bin/bash\n    lock_passwd: false\n    passwd: '",
                );
                assert(joint =~= shell + open + quote);
            }
            assert(begin + user + shell + password_lines(hash) =~= begin + user + joint + h
                + "'\n"@);
            let head = begin + user + shell + password_lines(hash);
            let first = "#cloud-config\nssh_pwauth: true\n"@;
            assert(first.is_prefix_of(begin)) by {
                reveal_strlit("#cloud-config\nssh_pwauth: true\n");
                reveal_strlit("#cloud-config\nssh_pwauth: true\nusers:\n  - name: ");
                assert(first =~= begin.subrange(0, first.len() as int));
            }
            assert(begin =~= head.subrange(0, begin.len() as int));
            lemma_prefix_of_prefix(first, begin, head);
        },
        None => {
            let begin = "#cloud-config\nusers:\n  - name: "@;
            let locked = "    lock_passwd: true\n"@;
            let joint =
                "\n    sudo: ALL=(ALL) NOPASSWD:ALL\n    shell: /bin/bash\n    lock_passwd: true\n"@;
            assert(joint == shell + locked) by {
                reveal_strlit("\n    sudo: ALL=(ALL) NOPASSWD:ALL\n    shell: /bin/bash\n");
                reveal_strlit("    lock_passwd: true\n");
                reveal_strlit(
                    "\n    sudo: ALL=(ALL) NOPASSWD:ALL\n    shell: /bin/bash\n    lock_passwd: true\n",
                );
                assert(joint =~= shell + locked);
            }
            assert(begin + user + shell + password_lines(hash) =~= begin + user + joint);
            let head = begin + user + shell + password_lines(hash);
            let first = "#cloud-config\nusers:\n"@;
            assert(first.is_prefix_of(begin)) by {
                reveal_strlit("#cloud-config\nusers:\n");
                reveal_strlit("#cloud-config\nusers:\n  - name: ");
                assert(first =~= begin.subrange(0, first.len() as int));
            }
            assert(begin =~= head.subrange(0, begin.len() as int));
            lemma_prefix_of_prefix(first, begin, head);
        },
    }
}

/// Where a password was hashed, the configuration lets users in by password, whatever keys there
/// are, and it gives the hash to the user it names. Where none was, it does neither, and locks the
/// password.
pub proof fn a_hashed_password_lets_the_user_in(s: SeedSpec, hash: Option<Seq<char>>) -> (user: Seq<
    char,
>)
    ensures
        s.user matches Some(u) ==> user == u@,
        s.user is None ==> user == "bhx"@,
        hash matches Some(h) ==> {
            &&& "#cloud-config\nssh_pwauth: true\n"@.is_prefix_of(user_data(s, hash))
            &&& ("#cloud-config\nssh_pwauth: true\nusers:\n  - name: "@ + user
                + "\n    sudo: ALL=(ALL) NOPASSWD:ALL\n    shell: /bin/bash\n    lock_passwd: false\n    passwd: '"@
                + h + "'\n"@).is_prefix_of(user_data(s, hash))
        },
        hash is None ==> {
            &&& "#cloud-config\nusers:\n"@.is_prefix_of(user_data(s, hash))
            &&& ("#cloud-config\nusers:\n  - name: "@ + user
                + "\n    sudo: ALL=(ALL) NOPASSWD:ALL\n    shell: /bin/bash\n    lock_passwd: true\n"@).is_prefix_of(
            user_data(s, hash))
        },
{
    let user = match s.user {
        Some(u) => u@,
        None => "bhx"@,
    };
    lemma_parts(s, hash);
    lemma_user_block(user, hash);
    let shell = "\n    sudo: ALL=(ALL) NOPASSWD:ALL\n    shell: /bin/bash\n"@;
    let begin = match hash {
        Some(h) => "#cloud-config\nssh_pwauth: true\nusers:\n  - name: "@,
        None => "#cloud-config\nusers:\n  - name: "@,
    };
    let head = begin + user + shell + password_lines(hash);
    lemma_begins(
        head,
        keys_block(s.ssh_keys@),
        "bootcmd:\n  - [ sh, -c, 'rm -f /etc/resolv.conf && (\n"@,
        server_lines(servers_of(s)),
        "    ) > /etc/resolv.conf' ]\n"@,
        extra_text(s.extra_user_data),
    );
    lemma_prefix_of_prefix(
        match hash {
            Some(h) => "#cloud-config\nssh_pwauth: true\n"@,
            None => "#cloud-config\nusers:\n"@,
        },
        head,
        user_data(s, hash),
    );
    user
}

/// One more key makes one more line, behind those of the others, with the key in quotes and without
/// white space around it; the first makes a heading too. Nothing else changes.
pub proof fn a_key_adds_its_line(
    a: SeedSpec,
    b: SeedSpec,
    key: String,
    hash: Option<Seq<char>>,
) -> (around: (Seq<char>, Seq<char>))
    requires
        b == (SeedSpec { ssh_keys: b.ssh_keys, ..a }),
        b.ssh_keys@ == a.ssh_keys@.push(key),
    ensures
        user_data(a, hash) == around.0 + around.1,
        a.ssh_keys@.len() > 0 ==> user_data(b, hash) == around.0 + "      - \""@ + trim(key@)
            + "\"\n"@ + around.1,
        a.ssh_keys@.len() == 0 ==> user_data(b, hash) == around.0
            + "    ssh_authorized_keys:\n      - \""@ + trim(key@) + "\"\n"@ + around.1,
        ("bootcmd:\n  - [ sh, -c, 'rm -f /etc/resolv.conf && (\n"@ + server_lines(servers_of(a))
            + "    ) > /etc/resolv.conf' ]\n"@ + extra_text(a.extra_user_data)) == around.1,
{
    lemma_parts(a, hash);
    lemma_parts(b, hash);
    let head = (match hash {
        Some(h) => "#cloud-config\nssh_pwauth: true\nusers:\n  - name: "@,
        None => "#cloud-config\nusers:\n  - name: "@,
    }) + (match a.user {
        Some(u) => u@,
        None => "bhx"@,
    }) + "\n    sudo: ALL=(ALL) NOPASSWD:ALL\n    shell: /bin/bash\n"@ + password_lines(hash);
    let tail = "bootcmd:\n  - [ sh, -c, 'rm -f /etc/resolv.conf && (\n"@ + server_lines(
        servers_of(a),
    ) + "    ) > /etc/resolv.conf' ]\n"@ + extra_text(a.extra_user_data);
    let pre = head + keys_block(a.ssh_keys@);
    assert(user_data(a, hash) =~= pre + tail);
    assert(b.ssh_keys@.drop_last() =~= a.ssh_keys@);
    assert(b.ssh_keys@.last() == key);
    assert(user_data(b, hash) =~= head + keys_block(b.ssh_keys@) + tail);
    reveal_strlit("    ssh_authorized_keys:\n");
    reveal_strlit("      - \"");
    reveal_strlit("    ssh_authorized_keys:\n      - \"");
    let line = "      - \""@ + trim(key@) + "\"\n"@;
    assert(key_lines(b.ssh_keys@) =~= key_lines(a.ssh_keys@) + line);
    if a.ssh_keys@.len() > 0 {
        assert(keys_block(b.ssh_keys@) =~= keys_block(a.ssh_keys@) + line);
        assert(user_data(b, hash) =~= pre + "      - \""@ + trim(key@) + "\"\n"@ + tail);
    } else {
        assert(key_lines(a.ssh_keys@) =~= Seq::<char>::empty());
        assert("    ssh_authorized_keys:\n      - \""@ =~= "    ssh_authorized_keys:\n"@
            + "      - \""@);
        assert(user_data(b, hash) =~= pre + "    ssh_authorized_keys:\n      - \""@ + trim(key@)
            + "\"\n"@ + tail);
    }
    (pre, tail)
}

/// One more name server makes one more line, behind those of the others. Nothing else changes.
pub proof fn a_name_server_adds_its_line(
    a: SeedSpec,
    b: SeedSpec,
    server: String,
    hash: Option<Seq<char>>,
) -> (around: (Seq<char>, Seq<char>))
    requires
        b == (SeedSpec { nameservers: b.nameservers, ..a }),
        a.nameservers@.len() > 0,
        b.nameservers@ == a.nameservers@.push(server),
    ensures
        user_data(a, hash) == around.0 + around.1,
        user_data(b, hash) == around.0 + "      echo nameserver "@ + server@ + "\n"@ + around.1,
        around.1 == "    ) > /etc/resolv.conf' ]\n"@ + extra_text(a.extra_user_data),
{
    lemma_parts(a, hash);
    lemma_parts(b, hash);
    let head = (match hash {
        Some(h) => "#cloud-config\nssh_pwauth: true\nusers:\n  - name: "@,
        None => "#cloud-config\nusers:\n  - name: "@,
    }) + (match a.user {
        Some(u) => u@,
        None => "bhx"@,
    }) + "\n    sudo: ALL=(ALL) NOPASSWD:ALL\n    shell: /bin/bash\n"@ + password_lines(hash)
        + keys_block(a.ssh_keys@) + "bootcmd:\n  - [ sh, -c, 'rm -f /etc/resolv.conf && (\n"@;
    let tail = "    ) > /etc/resolv.conf' ]\n"@ + extra_text(a.extra_user_data);
    let pre = head + server_lines(servers_of(a));
    assert(user_data(a, hash) =~= pre + tail);
    assert(servers_of(b).drop_last() =~= servers_of(a));
    assert(servers_of(b).last() == server@);
    let line = "      echo nameserver "@ + server@ + "\n"@;
    assert(server_lines(servers_of(b)) =~= server_lines(servers_of(a)) + line);
    assert(user_data(b, hash) =~= pre + "      echo nameserver "@ + server@ + "\n"@ + tail);
    (pre, tail)
}

/// A seed that names one name server writes just that one; one that names none writes 8.8.8.8.
pub proof fn a_guest_has_a_name_server(s: SeedSpec, hash: Option<Seq<char>>) -> (before: Seq<char>)
    requires
        s.nameservers@.len() <= 1,
    ensures
        s.nameservers@.len() == 1 ==> user_data(s, hash) == before
            + "bootcmd:\n  - [ sh, -c, 'rm -f /etc/resolv.conf && (\n      echo nameserver "@
            + s.nameservers@[0]@ + "\n    ) > /etc/resolv.conf' ]\n"@ + extra_text(
            s.extra_user_data,
        ),
        s.nameservers@.len() == 0 ==> user_data(s, hash) == before
            + "bootcmd:\n  - [ sh, -c, 'rm -f /etc/resolv.conf && (\n      echo nameserver 8.8.8.8\n    ) > /etc/resolv.conf' ]\n"@
            + extra_text(s.extra_user_data),
{
    lemma_parts(s, hash);
    let head = (match hash {
        Some(h) => "#cloud-config\nssh_pwauth: true\nusers:\n  - name: "@,
        None => "#cloud-config\nusers:\n  - name: "@,
    }) + (match s.user {
        Some(u) => u@,
        None => "bhx"@,
    }) + "\n    sudo: ALL=(ALL) NOPASSWD:ALL\n    shell: /bin/bash\n"@ + password_lines(hash)
        + keys_block(s.ssh_keys@);
    let boot = "bootcmd:\n  - [ sh, -c, 'rm -f /etc/resolv.conf && (\n"@;
    let end = "    ) > /etc/resolv.conf' ]\n"@;
    let extra = extra_text(s.extra_user_data);
    reveal_strlit("bootcmd:\n  - [ sh, -c, 'rm -f /etc/resolv.conf && (\n");
    reveal_strlit(
        "bootcmd:\n  - [ sh, -c, 'rm -f /etc/resolv.conf && (\n      echo nameserver ",
    );
    reveal_strlit("      echo nameserver ");
    reveal_strlit("    ) > /etc/resolv.conf' ]\n");
    reveal_strlit("\n    ) > /etc/resolv.conf' ]\n");
    reveal_strlit("\n");
    reveal_strlit("8.8.8.8");
    reveal_strlit(
        "bootcmd:\n  - [ sh, -c, 'rm -f /etc/resolv.conf && (\n      echo nameserver 8.8.8.8\n    ) > /etc/resolv.conf' ]\n",
    );
    let server = servers_of(s)[0];
    assert(servers_of(s).drop_last() =~= Seq::<Seq<char>>::empty());
    reveal_with_fuel(server_lines, 2);
    assert(server_lines(servers_of(s)) =~= "      echo nameserver "@ + server + "\n"@);
    let first = "bootcmd:\n  - [ sh, -c, 'rm -f /etc/resolv.conf && (\n      echo nameserver "@;
    let last = "\n    ) > /etc/resolv.conf' ]\n"@;
    assert(first =~= boot + "      echo nameserver "@);
    assert(last =~= "\n"@ + end);
    assert(user_data(s, hash) =~= head + first + server + last + extra);
    if s.nameservers@.len() == 0 {
        assert("bootcmd:\n  - [ sh, -c, 'rm -f /etc/resolv.conf && (\n      echo nameserver 8.8.8.8\n    ) > /etc/resolv.conf' ]\n"@
            =~= first + "8.8.8.8"@ + last);
        assert(head + first + "8.8.8.8"@ + last =~= head + (first + "8.8.8.8"@ + last));
    }
    head
}

/// Further configuration stands at the end, as it is, with a line break before and behind it; a
/// line break that it brings along is not doubled.
pub proof fn further_configuration_comes_last(a: SeedSpec, b: SeedSpec, hash: Option<Seq<char>>) -> (
    added: Seq<char>)
    requires
        b == (SeedSpec { extra_user_data: b.extra_user_data, ..a }),
        a.extra_user_data is None,
        b.extra_user_data is Some,
    ensures
        user_data(b, hash) == user_data(a, hash) + added,
        "    ) > /etc/resolv.conf' ]\n"@.is_suffix_of(user_data(a, hash)),
        added.len() > 0 && added[0] == '\n' && added.last() == '\n',
        ({
            let e = b.extra_user_data->0@;
            &&& e.len() == 0 ==> added == seq!['\n', '\n']
            &&& e.len() > 0 && e[0] == '\n' && e.last() == '\n' ==> added == e
            &&& e.len() > 0 && e[0] == '\n' && e.last() != '\n' ==> added == e.push('\n')
            &&& e.len() > 0 && e[0] != '\n' && e.last() == '\n' ==> added == seq!['\n'] + e
            &&& e.len() > 0 && e[0] != '\n' && e.last() != '\n' ==> added == (seq!['\n'] + e).push(
                '\n',
            )
        }),
{
    lemma_parts(a, hash);
    lemma_parts(b, hash);
    let added = extra_text(b.extra_user_data);
    assert(user_data(b, hash) =~= user_data(a, hash) + added);
    let end = "    ) > /etc/resolv.conf' ]\n"@;
    let t = user_data(a, hash);
    assert(end =~= t.subrange(t.len() - end.len(), t.len() as int));
    let e = b.extra_user_data->0@;
    if e.len() == 0 {
        assert(added =~= seq!['\n', '\n']);
    } else if e[0] == '\n' {
        if e.last() == '\n' {
            assert(added =~= e);
        } else {
            assert(added =~= e.push('\n'));
        }
    } else {
        if e.last() == '\n' {
            assert(added =~= seq!['\n'] + e);
        } else {
            assert(added =~= (seq!['\n'] + e).push('\n'));
        }
    }
    added
}

/// The description of an instance is two lines: its id, which is made up only where none was given,
/// and its name, which is `bhx-guest` only where none was given.
pub proof fn an_instance_has_an_id_and_a_name(s: SeedSpec, generated: Seq<char>)
    ensures
        s.instance_id matches Some(id) ==> ("instance-id: "@ + id@
            + "\nlocal-hostname: "@).is_prefix_of(meta_data(s, generated)),
        s.instance_id is None ==> ("instance-id: "@ + generated
            + "\nlocal-hostname: "@).is_prefix_of(meta_data(s, generated)),
        s.hostname matches Some(h) ==> ("\nlocal-hostname: "@ + h@ + "\n"@).is_suffix_of(
            meta_data(s, generated),
        ),
        s.hostname is None ==> "\nlocal-hostname: bhx-guest\n"@.is_suffix_of(
            meta_data(s, generated),
        ),
        meta_data(s, generated).len() == 31 + (match s.instance_id {
            Some(id) => id@.len(),
            None => generated.len(),
        }) + (match s.hostname {
            Some(h) => h@.len(),
            None => 9,
        }),
{
    reveal_strlit("instance-id: ");
    reveal_strlit("\nlocal-hostname: ");
    reveal_strlit("\n");
    reveal_strlit("bhx-guest");
    reveal_strlit("\nlocal-hostname: bhx-guest\n");
    let m = meta_data(s, generated);
    let id = match s.instance_id {
        Some(id) => id@,
        None => generated,
    };
    let host = match s.hostname {
        Some(h) => h@,
        None => "bhx-guest"@,
    };
    let head = "instance-id: "@ + id + "\nlocal-hostname: "@;
    let tail = "\nlocal-hostname: "@ + host + "\n"@;
    assert(head =~= m.subrange(0, head.len() as int));
    assert(tail =~= m.subrange(m.len() - tail.len(), m.len() as int));
    assert("\nlocal-hostname: bhx-guest\n"@ =~= "\nlocal-hostname: "@ + "bhx-guest"@ + "\n"@);
}

/// A password is hashed unless there are only keys; it is the one that was given, or `bhx` where
/// there is neither a password nor a key.
pub proof fn only_keys_do_without_a_password(s: SeedSpec)
    ensures
        effective_password(s) is None <==> s.password is None && s.ssh_keys@.len() > 0,
        s.password matches Some(p) ==> effective_password(s) == Some(p@),
        s.password is None && s.ssh_keys@.len() == 0 ==> effective_password(s) == Some("bhx"@),
{
}

/// A hash is what one of the two tools printed, without white space around it, and begins with
/// `$6$`. The second tool counts only where the first printed no such thing.
pub proof fn a_hash_is_what_a_tool_printed(first: Option<Seq<char>>, second: Option<Seq<char>>)
    ensures
        hash_of(first, second) matches Some(h) ==> "$6$"@.is_prefix_of(h) && (first == Some(
            first->0,
        ) && h == trim(first->0) || second == Some(second->0) && h == trim(second->0)),
        first matches Some(p) ==> "$6$"@.is_prefix_of(trim(p)) ==> hash_of(first, second) == Some(
            trim(p),
        ),
        (first is None || !"$6$"@.is_prefix_of(trim(first->0))) ==> match second {
            Some(p) => if "$6$"@.is_prefix_of(trim(p)) {
                hash_of(first, second) == Some(trim(p))
            } else {
                hash_of(first, second) is None
            },
            None => hash_of(first, second) is None,
        },
{
    reveal_strlit("$6$");
    if first is Some {
        let t = trim(first->0);
        if t.len() >= 3 {
            assert(t.take(3) =~= t.subrange(0, 3));
        }
    }
    if second is Some {
        let t = trim(second->0);
        if t.len() >= 3 {
            assert(t.take(3) =~= t.subrange(0, 3));
        }
    }
}

/// The first of `xorrisofs`, `genisoimage` and `mkisofs` that is there packs the seed. It labels
/// the image `cidata`, writes long names of both kinds, and is told last where to write.
pub proof fn how_a_seed_is_packed(found: Seq<bool>)
    requires
        found.len() == 3,
    ensures
        found[0] ==> iso_tool(first_of(found)) == "xorrisofs"@,
        !found[0] && found[1] ==> iso_tool(first_of(found)) == "genisoimage"@,
        !found[0] && !found[1] && found[2] ==> iso_tool(first_of(found)) == "mkisofs"@,
        found[0] || found[1] || found[2] ==> found[first_of(found)] && forall|k: int|
            0 <= k < first_of(found) ==> !found[k],
        iso_options().len() == 5,
        iso_options()[0] == "-V"@ && iso_options()[1] == "cidata"@,
        iso_options()[2] == "-J"@ && iso_options()[3] == "-r"@,
        iso_options().last() == "-o"@,
{
}

} // verus!
