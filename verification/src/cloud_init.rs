//! Seeds for cloud-init: the two files from which a fresh guest gets its user, its keys and its
//! name, and the disk image that they are packed into.
use vstd::prelude::*;
use vstd::string::*;

#[allow(unused_imports)]
use crate::cloud_init_laws::a_hashed_password_lets_the_user_in;
use crate::error::{Error, Result};
#[allow(unused_imports)]
use crate::text::{digit_char, hex, trim};
use crate::text::{chars_of, digit, push_hex, string_between, trim_bounds};

verus! {

/// The user of a seed that names none.
pub const DEFAULT_USER: &'static str = "bhx";

/// The password of a user who would otherwise have no way in.
pub const DEFAULT_PASSWORD: &'static str = "bhx";

/// The name server of a seed that names none.
pub const DEFAULT_NAMESERVER: &'static str = "8.8.8.8";

/// The host name of a seed that gives none.
pub const DEFAULT_HOSTNAME: &'static str = "bhx-guest";

/// How a hashed password begins.
pub const HASH_PREFIX: &'static str = "$6$";

/// What a seed is made from.
#[derive(Debug)]
pub struct SeedSpec {
    pub user: Option<String>,
    /// The password in the clear. With keys and without a password only the keys let the user in.
    pub password: Option<String>,
    pub ssh_keys: Vec<String>,
    pub hostname: Option<String>,
    pub instance_id: Option<String>,
    pub nameservers: Vec<String>,
    /// Further configuration, taken over as it is.
    pub extra_user_data: Option<String>,
}

impl Default for SeedSpec {
    fn default() -> (s: Self)
        ensures
            s.user is None,
            s.password is None,
            s.ssh_keys@.len() == 0,
            s.hostname is None,
            s.instance_id is None,
            s.nameservers@.len() == 0,
            s.extra_user_data is None,
    {
        SeedSpec {
            user: None,
            password: None,
            ssh_keys: Vec::new(),
            hostname: None,
            instance_id: None,
            nameservers: Vec::new(),
            extra_user_data: None,
        }
    }
}

/// A text, or another where there is none.
pub open spec fn or_text(s: Option<String>, other: Seq<char>) -> Seq<char> {
    match s {
        Some(t) => t@,
        None => other,
    }
}

/// The password that is hashed, if any.
pub open spec fn effective_password(s: SeedSpec) -> Option<Seq<char>> {
    match s.password {
        Some(p) => Some(p@),
        None => if s.ssh_keys@.len() > 0 {
            None
        } else {
            Some(DEFAULT_PASSWORD@)
        },
    }
}

/// The lines for these keys.
pub open spec fn key_lines(keys: Seq<String>) -> Seq<char>
    decreases keys.len(),
{
    if keys.len() == 0 {
        seq![]
    } else {
        key_lines(keys.drop_last()) + "      - \""@ + trim(keys.last()@) + "\"\n"@
    }
}

/// The lines for these name servers.
pub open spec fn server_lines(servers: Seq<Seq<char>>) -> Seq<char>
    decreases servers.len(),
{
    if servers.len() == 0 {
        seq![]
    } else {
        server_lines(servers.drop_last()) + "      echo nameserver "@ + servers.last() + "\n"@
    }
}

/// The name servers of a seed.
pub open spec fn servers_of(s: SeedSpec) -> Seq<Seq<char>> {
    if s.nameservers@.len() == 0 {
        seq![DEFAULT_NAMESERVER@]
    } else {
        s.nameservers@.map_values(|n: String| n@)
    }
}

/// Further configuration, set off by line breaks.
pub open spec fn extra_text(extra: Option<String>) -> Seq<char> {
    match extra {
        None => seq![],
        Some(e) => (if e@.len() > 0 && e@[0] == '\n' {
            seq![]
        } else {
            seq!['\n']
        }) + e@ + (if e@.len() > 0 && e@.last() == '\n' {
            seq![]
        } else {
            seq!['\n']
        }),
    }
}

/// The lines about the password.
pub open spec fn password_lines(hash: Option<Seq<char>>) -> Seq<char> {
    match hash {
        Some(h) => "    lock_passwd: false\n"@ + "    passwd: '"@ + h + "'\n"@,
        None => "    lock_passwd: true\n"@,
    }
}

/// The lines about the keys.
pub open spec fn keys_block(keys: Seq<String>) -> Seq<char> {
    if keys.len() == 0 {
        seq![]
    } else {
        "    ssh_authorized_keys:\n"@ + key_lines(keys)
    }
}

/// The configuration of a user whose password hashes to `hash`.
pub open spec fn user_data(s: SeedSpec, hash: Option<Seq<char>>) -> Seq<char> {
    "#cloud-config\n"@ + (if hash is Some {
        "ssh_pwauth: true\n"@
    } else {
        seq![]
    }) + "users:\n"@ + "  - name: "@ + or_text(s.user, DEFAULT_USER@) + "\n"@
        + "    sudo: ALL=(ALL) NOPASSWD:ALL\n"@ + "    shell: /bin/bash\n"@ + password_lines(hash)
        + keys_block(s.ssh_keys@) + "bootcmd:\n"@
        + "  - [ sh, -c, 'rm -f /etc/resolv.conf && (\n"@ + server_lines(servers_of(s))
        + "    ) > /etc/resolv.conf' ]\n"@ + extra_text(s.extra_user_data)
}

/// The description of an instance; `generated` is its id where the seed gives none.
pub open spec fn meta_data(s: SeedSpec, generated: Seq<char>) -> Seq<char> {
    "instance-id: "@ + or_text(s.instance_id, generated) + "\nlocal-hostname: "@ + or_text(
        s.hostname,
        DEFAULT_HOSTNAME@,
    ) + "\n"@
}

/// What the tool that packs a seed is told besides where to write and what to pack.
pub open spec fn iso_options() -> Seq<Seq<char>> {
    seq!["-V"@, "cidata"@, "-J"@, "-r"@, "-o"@]
}

/// A seed, ready to be packed.
#[derive(Debug)]
pub struct SeedPlan {
    pub tool: &'static str,
    pub options: Vec<&'static str>,
    pub user_data: String,
    pub meta_data: String,
}

/// The tools that can pack a seed, the preferred one first.
pub open spec fn iso_tool(i: int) -> Seq<char> {
    if i == 0 {
        "xorrisofs"@
    } else if i == 1 {
        "genisoimage"@
    } else {
        "mkisofs"@
    }
}

/// The place of the first tool that is there.
pub open spec fn first_of(found: Seq<bool>) -> int {
    if found[0] {
        0
    } else if found[1] {
        1
    } else {
        2
    }
}

/// What is said where no tool can pack a seed.
pub const NO_ISO_TOOL: &'static str =
    "no ISO tool found \u{2014} install one of: xorrisofs, genisoimage, mkisofs";

/// The first tool that is there.
pub fn pick_iso_tool(found: &[bool; 3]) -> (t: Option<&'static str>)
    ensures
        match t {
            Some(name) => found@[first_of(found@)] && name@ == iso_tool(first_of(found@)),
            None => !found@[0] && !found@[1] && !found@[2],
        },
{
    if found[0] {
        Some("xorrisofs")
    } else if found[1] {
        Some("genisoimage")
    } else if found[2] {
        Some("mkisofs")
    } else {
        None
    }
}

/// What a tool printed, without white space around it, where that is a hash.
pub open spec fn is_hash(printed: Seq<char>) -> bool {
    trim(printed).len() >= 3 && trim(printed).take(3) == HASH_PREFIX@
}

fn accepted(printed: Option<&str>) -> (h: Option<String>)
    ensures
        match printed {
            Some(p) => if is_hash(p@) {
                h matches Some(s) && s@ == trim(p@)
            } else {
                h is None
            },
            None => h is None,
        },
{
    match printed {
        Some(p) => {
            let chars: Vec<char> = chars_of(p);
            let (from, to): (usize, usize) = trim_bounds(chars.as_slice());
            proof {
                reveal_strlit("$6$");
                assert(HASH_PREFIX@ =~= seq!['$', '6', '$']);
            }
            if to - from >= 3 && chars[from] == '$' && chars[from + 1] == '6' && chars[from + 2]
                == '$' {
                assert(trim(p@).take(3) =~= seq!['$', '6', '$']);
                Some(string_between(chars.as_slice(), from, to))
            } else {
                proof {
                    if is_hash(p@) {
                        let t = trim(p@);
                        assert(t.take(3)[0] == t[0] && t.take(3)[1] == t[1] && t.take(3)[2] == t[2]);
                    }
                }
                None
            }
        },
        None => None,
    }
}

/// What a tool printed, if it ran.
pub open spec fn printed(p: Option<&str>) -> Option<Seq<char>> {
    match p {
        Some(t) => Some(t@),
        None => None,
    }
}

/// The hash that one of two tools printed, the first one preferred.
pub open spec fn hash_of(first: Option<Seq<char>>, second: Option<Seq<char>>) -> Option<Seq<char>> {
    if first is Some && is_hash(first->0) {
        Some(trim(first->0))
    } else if second is Some && is_hash(second->0) {
        Some(trim(second->0))
    } else {
        None
    }
}

/// What is said where no tool could hash a password.
pub const NO_HASH_TOOL: &'static str =
    "could not hash password: install one of `openssl` (>= 1.1) or `mkpasswd` (Debian/Ubuntu: apt install whois)";

/// The hash of a password: what the first tool printed, or else the second. A tool that is missing
/// or failed printed nothing.
pub fn hash_password_sha512(first: Option<&str>, second: Option<&str>) -> (r: Result<String>)
    ensures
        match hash_of(printed(first), printed(second)) {
            Some(hash) => r matches Ok(h) && h@ == hash,
            None => r matches Err(Error::BadRequest(m)) && m@ == NO_HASH_TOOL@,
        },
{
    match accepted(first) {
        Some(h) => {
            return Ok(h);
        },
        None => {},
    }
    match accepted(second) {
        Some(h) => Ok(h),
        None => Err(Error::bad_request(NO_HASH_TOOL)),
    }
}

fn push_hex_wide(s: &mut String, n: u128)
    ensures
        final(s)@ == old(s)@ + hex(n as nat),
    decreases n,
{
    if n >= 16 {
        push_hex_wide(s, n / 16);
    }
    let d: u8 = (n % 16) as u8;
    s.push(digit(d));
    proof {
        if n >= 16 {
            assert(hex(n as nat) == hex(n as nat / 16).push(digit_char((n % 16) as int)));
        }
        assert(s@ =~= old(s)@ + hex(n as nat));
    }
}

/// An id for an instance, from who made it and when.
pub fn generate_instance_id(pid: u32, nanos: u128) -> (s: String)
    ensures
        s@ == "iid-bhx-"@ + hex(pid as nat) + "-"@ + hex(nanos as nat),
{
    let mut s: String = "iid-bhx-".to_owned();
    push_hex(&mut s, pid as u64);
    s.append("-");
    push_hex_wide(&mut s, nanos);
    s
}

fn push_trimmed(s: &mut String, t: &str)
    ensures
        final(s)@ == old(s)@ + trim(t@),
{
    let chars: Vec<char> = chars_of(t);
    let (from, to): (usize, usize) = trim_bounds(chars.as_slice());
    let inner: String = string_between(chars.as_slice(), from, to);
    s.append(inner.as_str());
}

fn push_or(s: &mut String, t: &Option<String>, other: &str)
    ensures
        final(s)@ == old(s)@ + or_text(*t, other@),
{
    match t {
        Some(u) => s.append(u.as_str()),
        None => s.append(other),
    }
}

fn push_keys(s: &mut String, keys: &Vec<String>)
    ensures
        final(s)@ == old(s)@ + keys_block(keys@),
{
    let ghost start = s@;
    if keys.len() == 0 {
        assert(s@ =~= start + keys_block(keys@));
        return;
    }
    s.append("    ssh_authorized_keys:\n");
    let ghost head = s@;
    let mut i: usize = 0;
    assert(keys@.take(0) =~= Seq::<String>::empty());
    assert(head + key_lines(keys@.take(0)) =~= head);
    while i < keys.len()
        invariant
            i <= keys@.len(),
            s@ == head + key_lines(keys@.take(i as int)),
        decreases keys@.len() - i,
    {
        let ghost before = key_lines(keys@.take(i as int));
        proof {
            assert(keys@.take(i + 1).drop_last() =~= keys@.take(i as int));
            assert(keys@.take(i + 1).last() == keys@[i as int]);
        }
        s.append("      - \"");
        push_trimmed(s, keys[i].as_str());
        s.append("\"\n");
        assert(s@ =~= head + (before + "      - \""@ + trim(keys@[i as int]@) + "\"\n"@));
        i = i + 1;
    }
    assert(keys@.take(i as int) =~= keys@);
    assert(s@ =~= start + keys_block(keys@));
}

fn push_server(s: &mut String, server: &str)
    ensures
        final(s)@ == old(s)@ + "      echo nameserver "@ + server@ + "\n"@,
{
    s.append("      echo nameserver ");
    s.append(server);
    s.append("\n");
}

impl SeedSpec {
    /// The password to hash, if any.
    pub fn password_to_hash(&self) -> (p: Option<&str>)
        ensures
            match p {
                Some(t) => effective_password(*self) == Some(t@),
                None => effective_password(*self) is None,
            },
    {
        match &self.password {
            Some(p) => Some(p.as_str()),
            None => if self.ssh_keys.len() > 0 {
                None
            } else {
                Some(DEFAULT_PASSWORD)
            },
        }
    }

    fn push_servers(&self, s: &mut String)
        ensures
            final(s)@ == old(s)@ + server_lines(servers_of(*self)),
    {
        let ghost start = s@;
        let ghost all = servers_of(*self);
        if self.nameservers.len() == 0 {
            push_server(s, DEFAULT_NAMESERVER);
            proof {
                let one = seq![DEFAULT_NAMESERVER@];
                assert(one.drop_last() =~= Seq::<Seq<char>>::empty());
                reveal_with_fuel(server_lines, 2);
                assert(s@ =~= start + server_lines(one));
            }
            return;
        }
        let mut i: usize = 0;
        assert(all.take(0) =~= Seq::<Seq<char>>::empty());
        assert(start + server_lines(all.take(0)) =~= start);
        while i < self.nameservers.len()
            invariant
                i <= self.nameservers@.len(),
                self.nameservers@.len() > 0,
                all == servers_of(*self),
                s@ == start + server_lines(all.take(i as int)),
            decreases self.nameservers@.len() - i,
        {
            let ghost before = server_lines(all.take(i as int));
            proof {
                assert(all.take(i + 1).drop_last() =~= all.take(i as int));
                assert(all.take(i + 1).last() == self.nameservers@[i as int]@);
            }
            push_server(s, self.nameservers[i].as_str());
            assert(s@ =~= start + (before + "      echo nameserver "@
                + self.nameservers@[i as int]@ + "\n"@));
            i = i + 1;
        }
        assert(all.take(i as int) =~= all);
    }

    fn push_extra(&self, s: &mut String)
        ensures
            final(s)@ == old(s)@ + extra_text(self.extra_user_data),
    {
        let ghost start = s@;
        match &self.extra_user_data {
            None => {},
            Some(e) => {
                let text: &str = e.as_str();
                let n: usize = text.unicode_len();
                if !(n > 0 && text.get_char(0) == '\n') {
                    s.push('\n');
                }
                s.append(text);
                if !(n > 0 && text.get_char(n - 1) == '\n') {
                    s.push('\n');
                }
            },
        }
        assert(s@ =~= start + extra_text(self.extra_user_data));
    }

    fn user_data_with(&self, hash: &Option<String>) -> (s: String)
        ensures
            s@ == user_data(
                *self,
                match *hash {
                    Some(h) => Some(h@),
                    None => None,
                },
            ),
    {
        let mut s: String = "#cloud-config\n".to_owned();
        let ghost begun = s@;
        match hash {
            Some(_) => s.append("ssh_pwauth: true\n"),
            None => {},
        }
        assert(s@ =~= begun + (if hash is Some {
            "ssh_pwauth: true\n"@
        } else {
            seq![]
        }));
        s.append("users:\n");
        s.append("  - name: ");
        push_or(&mut s, &self.user, DEFAULT_USER);
        s.append("\n");
        s.append("    sudo: ALL=(ALL) NOPASSWD:ALL\n");
        s.append("    shell: /bin/bash\n");
        let ghost before = s@;
        match hash {
            Some(h) => {
                s.append("    lock_passwd: false\n");
                s.append("    passwd: '");
                s.append(h.as_str());
                s.append("'\n");
                assert(s@ =~= before + password_lines(Some(h@)));
            },
            None => {
                s.append("    lock_passwd: true\n");
            },
        }
        push_keys(&mut s, &self.ssh_keys);
        s.append("bootcmd:\n");
        s.append("  - [ sh, -c, 'rm -f /etc/resolv.conf && (\n");
        self.push_servers(&mut s);
        s.append("    ) > /etc/resolv.conf' ]\n");
        self.push_extra(&mut s);
        s
    }

    /// The configuration of the user. `first` and `second` are what the tools that hash printed for
    /// the password, where there is one to hash.
    pub fn render_user_data(&self, first: Option<&str>, second: Option<&str>) -> (r: Result<String>)
        ensures
            match effective_password(*self) {
                None => r matches Ok(s) && s@ == user_data(*self, None),
                Some(_) => match hash_of(printed(first), printed(second)) {
                    Some(h) => r matches Ok(s) && s@ == user_data(*self, Some(h)),
                    None => r matches Err(Error::BadRequest(m)) && m@ == NO_HASH_TOOL@,
                },
            },
            r matches Ok(s) ==> (if effective_password(*self) is Some {
                "#cloud-config\nssh_pwauth: true\n"@.is_prefix_of(s@)
            } else {
                "#cloud-config\nusers:\n"@.is_prefix_of(s@)
            }),
    {
        proof {
            a_hashed_password_lets_the_user_in(*self, None);
            a_hashed_password_lets_the_user_in(*self, hash_of(printed(first), printed(second)));
        }
        match self.password_to_hash() {
            None => Ok(self.user_data_with(&None)),
            Some(_) => match hash_password_sha512(first, second) {
                Ok(h) => Ok(self.user_data_with(&Some(h))),
                Err(e) => Err(e),
            },
        }
    }

    /// The description of the instance. `generated` is its id where the seed gives none.
    pub fn render_meta_data(&self, generated: &str) -> (s: String)
        ensures
            s@ == meta_data(*self, generated@),
    {
        let mut s: String = "instance-id: ".to_owned();
        push_or(&mut s, &self.instance_id, generated);
        s.append("\nlocal-hostname: ");
        push_or(&mut s, &self.hostname, DEFAULT_HOSTNAME);
        s.append("\n");
        s
    }

    /// Plans the packing of a seed. `found` says which of the packing tools are there.
    pub fn write_iso(
        &self,
        first: Option<&str>,
        second: Option<&str>,
        generated: &str,
        found: &[bool; 3],
    ) -> (r: Result<SeedPlan>)
        ensures
            ({
                let hash = hash_of(printed(first), printed(second));
                if effective_password(*self) is Some && hash is None {
                    r matches Err(Error::BadRequest(m)) && m@ == NO_HASH_TOOL@
                } else if !found@[0] && !found@[1] && !found@[2] {
                    r matches Err(Error::BadRequest(m)) && m@ == NO_ISO_TOOL@
                } else {
                    &&& r is Ok
                    &&& r->Ok_0.tool@ == iso_tool(first_of(found@))
                    &&& r->Ok_0.options@.map_values(|o: &str| o@) == iso_options()
                    &&& r->Ok_0.user_data@ == user_data(
                        *self,
                        if effective_password(*self) is Some {
                            hash
                        } else {
                            None
                        },
                    )
                    &&& r->Ok_0.meta_data@ == meta_data(*self, generated@)
                }
            }),
    {
        let user_data: String = match self.render_user_data(first, second) {
            Ok(s) => s,
            Err(e) => {
                return Err(e);
            },
        };
        let meta_data: String = self.render_meta_data(generated);
        match pick_iso_tool(found) {
            None => Err(Error::bad_request(NO_ISO_TOOL)),
            Some(tool) => {
                let options: Vec<&'static str> = vec!["-V", "cidata", "-J", "-r", "-o"];
                assert(options@.map_values(|o: &str| o@) =~= iso_options());
                Ok(SeedPlan { tool, options, user_data, meta_data })
            },
        }
    }
}

/// What is said of a tool that could not pack a seed.
pub fn iso_tool_failed(tool: &str, status: &str) -> (e: Error)
    ensures
        e matches Error::BadRequest(m) && m@ == tool@ + " exited with status "@ + status@,
{
    let mut m: String = tool.to_owned();
    m.append(" exited with status ");
    m.append(status);
    Error::BadRequest(m)
}

/// A seed says nothing of the password but its hash: two that differ in the password alone are the
/// same where the hashes are.
pub proof fn the_password_is_not_written(a: SeedSpec, b: SeedSpec, hash: Option<Seq<char>>)
    requires
        b == (SeedSpec { password: b.password, ..a }),
    ensures
        user_data(a, hash) == user_data(b, hash),
        forall|id: Seq<char>| #[trigger] meta_data(a, id) == meta_data(b, id),
{
}

/// A user always has a way in: a password, or a key.
pub proof fn there_is_a_way_in(s: SeedSpec)
    ensures
        effective_password(s) is Some || s.ssh_keys@.len() > 0,
{
}

} // verus!
