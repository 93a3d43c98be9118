//! The machine's SSH host identity: generating it, handing it to the machine
//! at boot, and pinning it for the client.
use vstd::prelude::*;
use base64::Engine;

verus! {

/// Why a host identity could not be made.
#[derive(Clone, Copy, PartialEq, Eq, Debug)]
pub enum BootstrapError {
    /// The OS random source failed.
    KeyGeneration,
    /// A key could not be encoded.
    KeyEncoding,
    /// The boot payload would exceed the provider's user-data limit.
    UserDataTooLarge,
}

/// The SSH host keypair that a new machine presents.
pub struct HostIdentity {
    /// The public key in SSH wire encoding.
    pub public_key_bytes: Vec<u8>,
    /// The public key in OpenSSH text form.
    pub public_key: String,
    /// The private key in OpenSSH text form.
    pub private_key: String,
}

/// Relies on rand_core's `OsRng::try_fill_bytes`: `len` bytes from the OS
/// random source, or `None` where that source fails.
#[verifier::external_body]
pub(crate) fn random_bytes(len: usize) -> (r: Option<Vec<u8>>)
    ensures
        r.is_some() ==> r.unwrap()@.len() == len,
{
    let mut buf = vec![0u8; len];
    ssh_key::rand_core::RngCore::try_fill_bytes(&mut ssh_key::rand_core::OsRng, &mut buf).ok().map(|_| buf)
}

/// The Ed25519 public key (32 bytes) that the secret seed `seed` expands to.
pub uninterp spec fn ed25519_public_of(seed: Seq<u8>) -> Seq<u8>;

/// The OpenSSH text of the unencrypted Ed25519 private key with seed `seed`
/// and an empty comment, with LF line endings.
pub uninterp spec fn ed25519_private_openssh_of(seed: Seq<u8>) -> Seq<char>;

/// The SSH wire encoding of an Ed25519 public key: the algorithm name and
/// the key, each as a length-prefixed string.
pub open spec fn ed25519_wire_of(public: Seq<u8>) -> Seq<u8> {
    seq![0u8, 0, 0, 11, 115, 115, 104, 45, 101, 100, 50, 53, 53, 49, 57, 0, 0, 0, 32] + public
}

/// The OpenSSH public key prefix of the Ed25519 algorithm.
pub const ED25519_PREFIX: &'static str = "ssh-ed25519 ";

/// The OpenSSH text of a public key with SSH wire encoding `wire` and no comment.
pub open spec fn ed25519_public_openssh_of(wire: Seq<u8>) -> Seq<char> {
    ED25519_PREFIX@ + base64_of(wire)
}

/// Relies on ssh_key: `Ed25519Keypair::from_seed`, the `PrivateKey` made of
/// that keypair (empty comment, check value derived from the key), then
/// `PublicKey::to_bytes`, `PublicKey::to_openssh` (algorithm, a space, the
/// base64 of the wire encoding; no comment) and `PrivateKey::to_openssh`
/// with LF line endings. `None` where an encoding fails.
#[verifier::external_body]
fn ed25519_host_key(seed: &[u8]) -> (r: Option<(Vec<u8>, String, String)>)
    requires
        seed@.len() == 32,
    ensures
        match r {
            Some((wire, public, private)) => {
                &&& ed25519_public_of(seed@).len() == 32
                &&& wire@ == ed25519_wire_of(ed25519_public_of(seed@))
                &&& public@ == ed25519_public_openssh_of(wire@)
                &&& private@ == ed25519_private_openssh_of(seed@)
            },
            None => true,
        },
{
    let seed: &[u8; 32] = seed.try_into().ok()?;
    let pair = ssh_key::private::Ed25519Keypair::from_seed(seed);
    let key = ssh_key::PrivateKey::try_from(ssh_key::private::KeypairData::from(pair)).ok()?;
    let wire = key.public_key().to_bytes().ok()?;
    let public = key.public_key().to_openssh().ok()?;
    let private = key.to_openssh(ssh_key::LineEnding::LF).ok()?.to_string();
    Some((wire, public, private))
}

impl HostIdentity {
    /// The three texts are the encodings of one Ed25519 keypair.
    pub open spec fn wf(&self) -> bool {
        exists|seed: Seq<u8>|
            #![trigger ed25519_public_of(seed)]
            {
                &&& seed.len() == 32
                &&& ed25519_public_of(seed).len() == 32
                &&& self.public_key_bytes@ == ed25519_wire_of(ed25519_public_of(seed))
                &&& self.public_key@ == ed25519_public_openssh_of(self.public_key_bytes@)
                &&& self.private_key@ == ed25519_private_openssh_of(seed)
            }
    }

    /// Generates a fresh Ed25519 host keypair from the OS random source and
    /// encodes both halves. Any failure is reported; there is no fallback key.
    pub fn generate() -> (r: Result<HostIdentity, BootstrapError>)
        ensures
            r is Err ==> (r->Err_0 == BootstrapError::KeyGeneration || r->Err_0 == BootstrapError::KeyEncoding),
            r is Ok ==> r->Ok_0.wf() && r->Ok_0.public_key_bytes@.len() == 51
                && r->Ok_0.public_key@.subrange(0, 12) == ED25519_PREFIX@
                && !r->Ok_0.public_key@.contains('\n'),
    {
        let seed = match random_bytes(32) {
            Some(s) => s,
            None => return Err(BootstrapError::KeyGeneration),
        };
        match ed25519_host_key(seed.as_slice()) {
            Some((public_key_bytes, public_key, private_key)) => {
                let r = HostIdentity { public_key_bytes, public_key, private_key };
                proof {
                    reveal_strlit("ssh-ed25519 ");
                    lemma_base64_plain(r.public_key_bytes@);
                    let p = r.public_key@;
                    assert(p.subrange(0, 12) =~= ED25519_PREFIX@);
                    if p.contains('\n') {
                        let j = choose|j: int| 0 <= j < p.len() && p[j] == '\n';
                        if j >= 12 {
                            assert(base64_of(r.public_key_bytes@)[j - 12] == '\n');
                        }
                    }
                }
                Ok(r)
            },
            None => Err(BootstrapError::KeyEncoding),
        }
    }
}

/// The standard base64 alphabet.
pub const BASE64_ALPHABET: &'static str = "ABCDEFGHIJKLMNOPQRSTUVWXYZabcdefghijklmnopqrstuvwxyz0123456789+/";

pub open spec fn b64(v: int) -> char {
    BASE64_ALPHABET@[v]
}

/// Standard base64 with padding: each group of three bytes becomes four
/// characters of six bits each; a last group of one or two bytes is padded
/// with '='.
pub open spec fn base64_of(b: Seq<u8>) -> Seq<char>
    decreases b.len(),
{
    if b.len() == 0 {
        seq![]
    } else {
        let x0 = b[0] as int;
        let x1 = if b.len() > 1 { b[1] as int } else { 0 };
        let x2 = if b.len() > 2 { b[2] as int } else { 0 };
        if b.len() == 1 {
            seq![b64(x0 / 4), b64((x0 % 4) * 16), '=', '=']
        } else if b.len() == 2 {
            seq![b64(x0 / 4), b64((x0 % 4) * 16 + x1 / 16), b64((x1 % 16) * 4), '=']
        } else {
            seq![b64(x0 / 4), b64((x0 % 4) * 16 + x1 / 16), b64((x1 % 16) * 4 + x2 / 64), b64(x2 % 64)]
                + base64_of(b.subrange(3, b.len() as int))
        }
    }
}

/// The six-bit value of a base64 character.
pub open spec fn b64_value(c: char) -> int {
    if 'A' <= c <= 'Z' {
        c as int - 'A' as int
    } else if 'a' <= c <= 'z' {
        c as int - 'a' as int + 26
    } else if '0' <= c <= '9' {
        c as int - '0' as int + 52
    } else if c == '+' {
        62
    } else {
        63
    }
}

proof fn lemma_b64_value(v: int)
    requires
        0 <= v < 64,
    ensures
        b64_value(b64(v)) == v,
        b64(v) != '=',
{
    reveal_strlit("ABCDEFGHIJKLMNOPQRSTUVWXYZabcdefghijklmnopqrstuvwxyz0123456789+/");
}

/// Standard base64 is one-to-one: the text gives back the bytes.
pub proof fn lemma_base64_injective(a: Seq<u8>, b: Seq<u8>)
    requires
        base64_of(a) == base64_of(b),
    ensures
        a == b,
    decreases a.len(),
{
    let s = base64_of(a);
    if a.len() == 0 || b.len() == 0 {
        if a.len() != 0 || b.len() != 0 {
            assert(s.len() == 0);
        }
        assert(a =~= b);
        return;
    }
    let (x0, x1, x2) = (a[0] as int, if a.len() > 1 { a[1] as int } else { 0 }, if a.len() > 2 { a[2] as int } else { 0 });
    let (y0, y1, y2) = (b[0] as int, if b.len() > 1 { b[1] as int } else { 0 }, if b.len() > 2 { b[2] as int } else { 0 });
    lemma_b64_value(x0 / 4);
    lemma_b64_value(y0 / 4);
    lemma_b64_value((x0 % 4) * 16 + x1 / 16);
    lemma_b64_value((y0 % 4) * 16 + y1 / 16);
    lemma_b64_value((x1 % 16) * 4 + x2 / 64);
    lemma_b64_value((y1 % 16) * 4 + y2 / 64);
    lemma_b64_value((x1 % 16) * 4);
    lemma_b64_value((y1 % 16) * 4);
    lemma_b64_value((x0 % 4) * 16);
    lemma_b64_value((y0 % 4) * 16);
    lemma_b64_value(x2 % 64);
    lemma_b64_value(y2 % 64);
    let sa = base64_of(a);
    let sb = base64_of(b);
    // the group size shows in the padding
    assert(a.len() == 1 <==> b.len() == 1) by {
        if a.len() == 1 { assert(sa[2] == '='); }
        if b.len() == 1 { assert(sb[2] == '='); }
    }
    assert(a.len() == 2 <==> b.len() == 2) by {
        if a.len() == 2 { assert(sa[3] == '='); assert(sa[2] != '='); }
        if b.len() == 2 { assert(sb[3] == '='); assert(sb[2] != '='); }
    }
    assert(b64_value(sa[0]) == b64_value(sb[0]));
    assert(b64_value(sa[1]) == b64_value(sb[1]));
    assert(x0 / 4 == y0 / 4);
    assert((x0 % 4) * 16 + x1 / 16 == (y0 % 4) * 16 + y1 / 16);
    assert(x0 % 4 == y0 % 4 && x1 / 16 == y1 / 16) by (nonlinear_arith)
        requires
            (x0 % 4) * 16 + x1 / 16 == (y0 % 4) * 16 + y1 / 16,
            0 <= x1 < 256,
            0 <= y1 < 256,
            0 <= x0 % 4 < 4,
            0 <= y0 % 4 < 4,
    ;
    assert(x0 == y0) by (nonlinear_arith)
        requires
            x0 / 4 == y0 / 4,
            x0 % 4 == y0 % 4,
            0 <= x0,
            0 <= y0,
    ;
    if a.len() >= 2 {
        assert(b64_value(sa[2]) == b64_value(sb[2]));
        if a.len() == 2 {
            assert((x1 % 16) * 4 == (y1 % 16) * 4);
            assert(x1 == y1) by (nonlinear_arith)
                requires
                    x1 / 16 == y1 / 16,
                    (x1 % 16) * 4 == (y1 % 16) * 4,
                    0 <= x1,
                    0 <= y1,
            ;
            assert(a =~= b);
        } else {
            assert(b64_value(sa[3]) == b64_value(sb[3]));
            assert((x1 % 16) * 4 + x2 / 64 == (y1 % 16) * 4 + y2 / 64);
            assert(x2 % 64 == y2 % 64);
            assert(x1 % 16 == y1 % 16 && x2 / 64 == y2 / 64) by (nonlinear_arith)
                requires
                    (x1 % 16) * 4 + x2 / 64 == (y1 % 16) * 4 + y2 / 64,
                    0 <= x2 < 256,
                    0 <= y2 < 256,
                    0 <= x1 % 16 < 16,
                    0 <= y1 % 16 < 16,
            ;
            assert(x1 == y1) by (nonlinear_arith)
                requires
                    x1 / 16 == y1 / 16,
                    x1 % 16 == y1 % 16,
                    0 <= x1,
                    0 <= y1,
            ;
            assert(x2 == y2) by (nonlinear_arith)
                requires
                    x2 / 64 == y2 / 64,
                    x2 % 64 == y2 % 64,
                    0 <= x2,
                    0 <= y2,
            ;
            let ra = a.subrange(3, a.len() as int);
            let rb = b.subrange(3, b.len() as int);
            assert(base64_of(ra) =~= sa.subrange(4, sa.len() as int));
            assert(base64_of(rb) =~= sb.subrange(4, sb.len() as int));
            lemma_base64_injective(ra, rb);
            assert(a =~= seq![a[0], a[1], a[2]] + ra);
            assert(b =~= seq![b[0], b[1], b[2]] + rb);
        }
    } else {
        assert(a =~= b);
    }
}

/// Base64 text holds no space and no line break.
pub proof fn lemma_base64_plain(b: Seq<u8>)
    ensures
        !base64_of(b).contains(' '),
        !base64_of(b).contains('\n'),
    decreases b.len(),
{
    reveal_strlit("ABCDEFGHIJKLMNOPQRSTUVWXYZabcdefghijklmnopqrstuvwxyz0123456789+/");
    assert forall|v: int| 0 <= v < 64 implies b64(v) != ' ' && b64(v) != '\n' by {
        assert(BASE64_ALPHABET@[v] != ' ');
    }
    let s = base64_of(b);
    if b.len() >= 3 {
        lemma_base64_plain(b.subrange(3, b.len() as int));
    }
    if s.contains(' ') || s.contains('\n') {
        let j = choose|j: int| 0 <= j < s.len() && (s[j] == ' ' || s[j] == '\n');
        if b.len() >= 3 && j >= 4 {
            assert(base64_of(b.subrange(3, b.len() as int))[j - 4] == s[j]);
        }
    }
}

/// The lines of the boot script up to and including the daemon stop.
pub const SCRIPT_HEAD: &'static str = "#!/bin/bash\nsudo systemctl stop ssh\n";

/// Opens a command that writes a key file.
pub const WRITE_OPEN: &'static str = "echo \"";

/// Closes the command that writes the public host key.
pub const PUBLIC_KEY_CLOSE: &'static str = "\" > /etc/ssh/ssh_host_ed25519_key.pub\n";

/// Closes the command that writes the private host key.
pub const PRIVATE_KEY_CLOSE: &'static str = "\" > /etc/ssh/ssh_host_ed25519_key\n";

/// The lines after the key files are written: keep-alive, then daemon start.
pub const SCRIPT_TAIL: &'static str = "\necho \"ClientAliveInterval 30\" >> /etc/ssh/sshd_config\nsudo systemctl start ssh\n";

pub open spec fn stop_command() -> Seq<char> {
    "sudo systemctl stop ssh"@
}

pub open spec fn start_command() -> Seq<char> {
    "sudo systemctl start ssh"@
}

/// The command that overwrites the public host key file with `public_key`.
pub open spec fn write_public_key(public_key: Seq<char>) -> Seq<char> {
    WRITE_OPEN@ + public_key + PUBLIC_KEY_CLOSE@
}

/// The command that overwrites the private host key file with `private_key`.
pub open spec fn write_private_key(private_key: Seq<char>) -> Seq<char> {
    WRITE_OPEN@ + private_key + PRIVATE_KEY_CLOSE@
}

/// The boot script that installs the given host keypair.
pub open spec fn boot_script_of(public_key: Seq<char>, private_key: Seq<char>) -> Seq<char> {
    SCRIPT_HEAD@ + write_public_key(public_key) + write_private_key(private_key) + SCRIPT_TAIL@
}

/// Builds the boot script that stops the SSH daemon, overwrites both host
/// key files, sets a keep-alive interval and starts the daemon again.
pub fn boot_script(public_key: &str, private_key: &str) -> (r: String)
    ensures
        r@ == boot_script_of(public_key@, private_key@),
{
    let mut s = String::from_str(SCRIPT_HEAD);
    s.append(WRITE_OPEN);
    s.append(public_key);
    s.append(PUBLIC_KEY_CLOSE);
    s.append(WRITE_OPEN);
    s.append(private_key);
    s.append(PRIVATE_KEY_CLOSE);
    s.append(SCRIPT_TAIL);
    assert(s@ =~= boot_script_of(public_key@, private_key@));
    s
}

/// Relies on base64's STANDARD engine `encode`: padded base64 of `bytes`.
/// It panics only where the encoded length overflows `usize`.
#[verifier::external_body]
fn encode_base64(bytes: &[u8]) -> (r: String)
    requires
        bytes@.len() <= usize::MAX / 2,
    ensures
        r@ == base64_of(bytes@),
{
    base64::engine::general_purpose::STANDARD.encode(bytes)
}

/// The boot payload as the launch call carries it: the boot script, UTF-8
/// encoded, then base64 encoded.
pub fn user_data(public_key: &str, private_key: &str) -> (r: String)
    requires
        vstd::utf8::encode_utf8(boot_script_of(public_key@, private_key@)).len() <= usize::MAX / 2,
    ensures
        r@ == base64_of(vstd::utf8::encode_utf8(boot_script_of(public_key@, private_key@))),
{
    let script = boot_script(public_key, private_key);
    let bytes = script.as_str().as_bytes();
    encode_base64(bytes)
}

/// The pinned host entry that tells the SSH tools which key `address` presents.
pub open spec fn known_hosts_line_of(address: Seq<char>, public_key: Seq<char>) -> Seq<char> {
    address + seq![' '] + public_key
}

/// Builds the known-hosts entry for `address` with host key `public_key`.
pub fn known_hosts_line(address: &str, public_key: &str) -> (r: String)
    ensures
        r@ == known_hosts_line_of(address@, public_key@),
{
    let mut s = String::from_str(address);
    s.append(" ");
    s.append(public_key);
    proof {
        reveal_strlit(" ");
    }
    assert(s@ =~= known_hosts_line_of(address@, public_key@));
    s
}

/// Splits a known-hosts entry at its first space into the address and the key.
/// `None` when the line holds no space.
pub fn parse_known_hosts_line(line: &str) -> (r: Option<(String, String)>)
    ensures
        match r {
            Some((address, key)) => line@ == known_hosts_line_of(address@, key@) && !address@.contains(' '),
            None => !line@.contains(' '),
        },
{
    let n = line.unicode_len();
    let mut i: usize = 0;
    while i < n
        invariant
            n == line@.len(),
            i <= n,
            forall|j: int| 0 <= j < i ==> line@[j] != ' ',
        decreases n - i,
    {
        if line.get_char(i) == ' ' {
            let address = line.substring_char(0, i).to_owned();
            let key = line.substring_char(i + 1, n).to_owned();
            assert(line@ =~= known_hosts_line_of(address@, key@));
            assert(!address@.contains(' ')) by {
                if address@.contains(' ') {
                    let j = choose|j: int| 0 <= j < address@.len() && address@[j] == ' ';
                    assert(line@[j] == ' ');
                }
            }
            return Some((address, key));
        }
        i += 1;
    }
    assert(!line@.contains(' ')) by {
        if line@.contains(' ') {
            let j = choose|j: int| 0 <= j < line@.len() && line@[j] == ' ';
            assert(line@[j] == ' ');
        }
    }
    None
}

/// `t` stands in `s` starting at index `i`.
pub open spec fn occurs_at(s: Seq<char>, t: Seq<char>, i: int) -> bool {
    0 <= i && i + t.len() <= s.len() && s.subrange(i, i + t.len()) == t
}

/// For every keypair, the boot script stops the SSH daemon, then overwrites
/// the public and then the private host key file, then starts the daemon,
/// and the start is its last line.
pub proof fn lemma_boot_script_order(public_key: Seq<char>, private_key: Seq<char>)
    ensures
        ({
            let s = boot_script_of(public_key, private_key);
            exists|a: int, b: int, c: int, d: int|
                #![trigger occurs_at(s, stop_command(), a), occurs_at(s, write_public_key(public_key), b), occurs_at(s, write_private_key(private_key), c), occurs_at(s, start_command(), d)]
                occurs_at(s, stop_command(), a) && occurs_at(s, write_public_key(public_key), b)
                    && occurs_at(s, write_private_key(private_key), c) && occurs_at(s, start_command(), d)
                    && a + stop_command().len() <= b && b + write_public_key(public_key).len() <= c
                    && c + write_private_key(private_key).len() <= d && d + start_command().len() + 1 == s.len()
        }),
{
    reveal_strlit("#!/bin/bash\nsudo systemctl stop ssh\n");
    reveal_strlit("\necho \"ClientAliveInterval 30\" >> /etc/ssh/sshd_config\nsudo systemctl start ssh\n");
    reveal_strlit("sudo systemctl stop ssh");
    reveal_strlit("sudo systemctl start ssh");
    let s = boot_script_of(public_key, private_key);
    let head = SCRIPT_HEAD@;
    let wp = write_public_key(public_key);
    let ws = write_private_key(private_key);
    let tail = SCRIPT_TAIL@;
    let a: int = 12;
    let b = head.len() as int;
    let c = b + wp.len();
    let d = c + ws.len() + tail.len() - 25;
    assert(s =~= head + wp + ws + tail);
    assert(s.subrange(a, a + 23) =~= head.subrange(12, 35));
    assert(head.subrange(12, 35) =~= stop_command());
    assert(s.subrange(b, b + wp.len()) =~= wp);
    assert(s.subrange(c, c + ws.len()) =~= ws);
    assert(s.subrange(d, d + 24) =~= tail.subrange(tail.len() - 25, tail.len() - 1));
    assert(tail.subrange(tail.len() - 25, tail.len() - 1) =~= start_command());
    assert(occurs_at(s, stop_command(), a));
    assert(occurs_at(s, wp, b));
    assert(occurs_at(s, ws, c));
    assert(occurs_at(s, start_command(), d));
}

/// `t` stands somewhere in `s`.
pub open spec fn contains_text(s: Seq<char>, t: Seq<char>) -> bool {
    exists|j: int| occurs_at(s, t, j)
}

proof fn lemma_fixed_parts()
    ensures
        ({
            let head = SCRIPT_HEAD@ + WRITE_OPEN@;
            let mid = PUBLIC_KEY_CLOSE@ + WRITE_OPEN@;
            let tail = PRIVATE_KEY_CLOSE@ + SCRIPT_TAIL@;
            let t = start_command();
            &&& head.len() == 42 && mid.len() == 44 && tail.len() == 114 && t.len() == 24
            &&& head[11] == '\n' && head[35] == '\n' && head[41] == '"'
            &&& mid[0] == '"' && mid[37] == '\n' && mid[43] == '"'
            &&& forall|m: int| 5 <= m <= 17 ==> #[trigger] mid[m] != ' '
            &&& tail[0] == '"' && tail[33] == '\n' && tail[34] == '\n' && tail[40] == '"' && tail[63] == '"'
            &&& tail[64] == ' ' && tail[88] == '\n' && tail[113] == '\n'
            &&& forall|m: int| 5 <= m <= 13 ==> #[trigger] tail[m] != ' '
            &&& tail.subrange(89, 113) == t
            &&& forall|k: int| 0 <= k < 24 ==> #[trigger] t[k] != '\n' && t[k] != '"'
            &&& t[0] == 's' && t[4] == ' '
        }),
{
    reveal_strlit("#!/bin/bash\nsudo systemctl stop ssh\n");
    reveal_strlit("echo \"");
    reveal_strlit("\" > /etc/ssh/ssh_host_ed25519_key.pub\n");
    reveal_strlit("\" > /etc/ssh/ssh_host_ed25519_key\n");
    reveal_strlit("\necho \"ClientAliveInterval 30\" >> /etc/ssh/sshd_config\nsudo systemctl start ssh\n");
    reveal_strlit("sudo systemctl start ssh");
    let tail = PRIVATE_KEY_CLOSE@ + SCRIPT_TAIL@;
    assert(tail.subrange(89, 113) =~= start_command());
}

/// Where `t` stands at `i`, each character of `s` that it covers is one of `t`.
proof fn lemma_occurrence_char(s: Seq<char>, t: Seq<char>, i: int, k: int)
    requires
        occurs_at(s, t, i),
        i <= k < i + t.len(),
    ensures
        t[k - i] == s[k],
{
    assert(s.subrange(i, i + t.len())[k - i] == s[k]);
}

/// Where neither key text holds the daemon start command, the boot script
/// starts the daemon exactly once: in its last line, after both key writes.
#[verifier::rlimit(50)]
pub proof fn lemma_boot_script_starts_once(public_key: Seq<char>, private_key: Seq<char>)
    requires
        !contains_text(public_key, start_command()),
        !contains_text(private_key, start_command()),
    ensures
        ({
            let s = boot_script_of(public_key, private_key);
            &&& occurs_at(s, start_command(), s.len() - 25)
            &&& forall|i: int| #[trigger] occurs_at(s, start_command(), i) ==> i == s.len() - 25
        }),
{
    lemma_fixed_parts();
    let t = start_command();
    let s = boot_script_of(public_key, private_key);
    let p = public_key.len() as int;
    let q = private_key.len() as int;
    let b0 = 42 + p;
    let c0 = b0 + 44 + q;
    let head = SCRIPT_HEAD@ + WRITE_OPEN@;
    let mid = PUBLIC_KEY_CLOSE@ + WRITE_OPEN@;
    let tail = PRIVATE_KEY_CLOSE@ + SCRIPT_TAIL@;
    assert(s =~= head + public_key + mid + private_key + tail);
    assert(s.len() == c0 + 114);
    assert(s.subrange(c0 + 89, c0 + 113) =~= tail.subrange(89, 113));
    assert forall|i: int| #[trigger] occurs_at(s, t, i) implies i == s.len() - 25 by {
        if i < 12 {
            assert(s[11] == head[11]);
            lemma_occurrence_char(s, t, i, 11);
        } else if i < 36 {
            assert(s[35] == head[35]);
            lemma_occurrence_char(s, t, i, 35);
        } else if i < 42 {
            assert(s[41] == head[41]);
            lemma_occurrence_char(s, t, i, 41);
        } else if i + 24 <= b0 {
            assert(public_key.subrange(i - 42, i - 18) =~= s.subrange(i, i + 24));
            assert(occurs_at(public_key, t, i - 42));
        } else if i <= b0 {
            assert(s[b0] == mid[0]);
            lemma_occurrence_char(s, t, i, b0);
        } else if i <= b0 + 13 {
            assert(s[i + 4] == mid[i - b0 + 4]);
            assert(s.subrange(i, i + 24)[4] == s[i + 4]);
        } else if i <= b0 + 37 {
            assert(s[b0 + 37] == mid[37]);
            lemma_occurrence_char(s, t, i, b0 + 37);
        } else if i <= b0 + 43 {
            assert(s[b0 + 43] == mid[43]);
            lemma_occurrence_char(s, t, i, b0 + 43);
        } else if i + 24 <= c0 {
            assert(private_key.subrange(i - b0 - 44, i - b0 - 20) =~= s.subrange(i, i + 24));
            assert(occurs_at(private_key, t, i - b0 - 44));
        } else if i <= c0 {
            assert(s[c0] == tail[0]);
            lemma_occurrence_char(s, t, i, c0);
        } else if i <= c0 + 9 {
            assert(s[i + 4] == tail[i - c0 + 4]);
            assert(s.subrange(i, i + 24)[4] == s[i + 4]);
        } else if i <= c0 + 33 {
            assert(s[c0 + 33] == tail[33]);
            lemma_occurrence_char(s, t, i, c0 + 33);
        } else if i <= c0 + 34 {
            assert(s[c0 + 34] == tail[34]);
            lemma_occurrence_char(s, t, i, c0 + 34);
        } else if i <= c0 + 40 {
            assert(s[c0 + 40] == tail[40]);
            lemma_occurrence_char(s, t, i, c0 + 40);
        } else if i <= c0 + 63 {
            assert(s[c0 + 63] == tail[63]);
            lemma_occurrence_char(s, t, i, c0 + 63);
        } else if i == c0 + 64 {
            assert(s[c0 + 64] == tail[64]);
            assert(s.subrange(i, i + 24)[0] == s[i]);
        } else if i <= c0 + 88 {
            assert(s[c0 + 88] == tail[88]);
            lemma_occurrence_char(s, t, i, c0 + 88);
        } else if i >= c0 + 90 {
            assert(s[c0 + 113] == tail[113]);
            lemma_occurrence_char(s, t, i, c0 + 113);
        }
    }
}

/// A known-hosts entry reads back as the address and key it was built from
/// (for an address without spaces, the one split a reader can make), and
/// that key is the one the boot script writes into the public host key file.
pub proof fn lemma_known_hosts_round_trip(address: Seq<char>, public_key: Seq<char>, private_key: Seq<char>)
    requires
        !address.contains(' '),
    ensures
        forall|a: Seq<char>, k: Seq<char>|
            #![trigger known_hosts_line_of(a, k)]
            known_hosts_line_of(a, k) == known_hosts_line_of(address, public_key) && !a.contains(' ')
                ==> a == address && k == public_key,
        occurs_at(boot_script_of(public_key, private_key), write_public_key(public_key), SCRIPT_HEAD@.len() as int),
{
    let line = known_hosts_line_of(address, public_key);
    assert forall|a: Seq<char>, k: Seq<char>|
        known_hosts_line_of(a, k) == line && !a.contains(' ') implies a == address && k == public_key by {
        if a.len() < address.len() {
            assert(known_hosts_line_of(a, k)[a.len() as int] == ' ');
            assert(line[a.len() as int] == address[a.len() as int]);
            assert(address.contains(' '));
        } else if a.len() > address.len() {
            assert(line[address.len() as int] == ' ');
            assert(known_hosts_line_of(a, k)[address.len() as int] == a[address.len() as int]);
            assert(a.contains(' '));
        } else {
            assert(a =~= line.subrange(0, a.len() as int));
            assert(address =~= line.subrange(0, a.len() as int));
            assert(k =~= line.subrange((a.len() + 1) as int, line.len() as int));
            assert(public_key =~= line.subrange((a.len() + 1) as int, line.len() as int));
        }
    }
    let s = boot_script_of(public_key, private_key);
    let wp = write_public_key(public_key);
    assert(s =~= SCRIPT_HEAD@ + wp + write_private_key(private_key) + SCRIPT_TAIL@);
    assert(s.subrange(SCRIPT_HEAD@.len() as int, (SCRIPT_HEAD@.len() + wp.len()) as int) =~= wp);
}

/// For a host identity and an address without spaces, the known-hosts entry
/// reads back as that address and the OpenSSH text of the identity's public
/// key bytes, which is the key text the boot script writes into the public
/// host key file; that text gives back exactly those key bytes.
pub proof fn lemma_known_hosts_pins_key_bytes(address: Seq<char>, host: HostIdentity)
    requires
        !address.contains(' '),
        host.wf(),
    ensures
        forall|a: Seq<char>, k: Seq<char>|
            #![trigger known_hosts_line_of(a, k)]
            known_hosts_line_of(a, k) == known_hosts_line_of(address, host.public_key@) && !a.contains(' ')
                ==> a == address && k == ed25519_public_openssh_of(host.public_key_bytes@),
        occurs_at(
            boot_script_of(host.public_key@, host.private_key@),
            write_public_key(ed25519_public_openssh_of(host.public_key_bytes@)),
            SCRIPT_HEAD@.len() as int,
        ),
        forall|wire: Seq<u8>|
            #![trigger ed25519_public_openssh_of(wire)]
            ed25519_public_openssh_of(wire) == ed25519_public_openssh_of(host.public_key_bytes@)
                ==> wire == host.public_key_bytes@,
{
    lemma_known_hosts_round_trip(address, host.public_key@, host.private_key@);
    assert forall|wire: Seq<u8>|
        #[trigger] ed25519_public_openssh_of(wire) == ed25519_public_openssh_of(host.public_key_bytes@)
            implies wire == host.public_key_bytes@ by {
        let p = ED25519_PREFIX@;
        let t1 = ed25519_public_openssh_of(wire);
        let t2 = ed25519_public_openssh_of(host.public_key_bytes@);
        assert(base64_of(wire) =~= t1.subrange(p.len() as int, t1.len() as int));
        assert(base64_of(host.public_key_bytes@) =~= t2.subrange(p.len() as int, t2.len() as int));
        lemma_base64_injective(wire, host.public_key_bytes@);
    }
}

} // verus!
