//! What machine to launch: its shape, root volume, network interfaces and
//! operating system image.
use vstd::prelude::*;

verus! {

/// The operating systems a machine can be launched with.
#[derive(Clone, Copy, PartialEq, Eq, Debug)]
pub enum InstanceOs {
    Ubuntu20_04,
    Ubuntu22_04,
}

impl InstanceOs {
    pub open spec fn spec_version(self) -> Seq<char> {
        match self {
            InstanceOs::Ubuntu20_04 => "20.04"@,
            InstanceOs::Ubuntu22_04 => "22.04"@,
        }
    }

    /// The release number used in the image lookup path.
    pub fn version(&self) -> (r: &'static str)
        ensures
            r@ == self.spec_version(),
    {
        match self {
            InstanceOs::Ubuntu20_04 => "20.04",
            InstanceOs::Ubuntu22_04 => "22.04",
        }
    }
}

/// The CPU architecture of a machine shape.
#[derive(Clone, Copy, PartialEq, Eq, Debug)]
pub enum CpuArch {
    X86_64,
    Aarch64,
}

impl CpuArch {
    pub open spec fn spec_ubuntu_arch(self) -> Seq<char> {
        match self {
            CpuArch::X86_64 => "amd64"@,
            CpuArch::Aarch64 => "arm64"@,
        }
    }

    /// The architecture name used in the image lookup path.
    pub fn ubuntu_arch(&self) -> (r: &'static str)
        ensures
            r@ == self.spec_ubuntu_arch(),
    {
        match self {
            CpuArch::X86_64 => "amd64",
            CpuArch::Aarch64 => "arm64",
        }
    }
}

/// The first index at or after `i` where `s` holds a '.', or its length.
pub open spec fn dot_from(s: Seq<char>, i: int) -> int
    decreases s.len() - i,
{
    if 0 <= i < s.len() && s[i] != '.' {
        dot_from(s, i + 1)
    } else {
        i
    }
}

/// The first index at or after `i` where `s` holds no lower-case letter.
pub open spec fn letters_from(s: Seq<char>, i: int) -> int
    decreases s.len() - i,
{
    if 0 <= i < s.len() && 'a' <= s[i] <= 'z' {
        letters_from(s, i + 1)
    } else {
        i
    }
}

/// The first index at or after `i` where `s` holds no decimal digit.
pub open spec fn digits_from(s: Seq<char>, i: int) -> int
    decreases s.len() - i,
{
    if 0 <= i < s.len() && '0' <= s[i] <= '9' {
        digits_from(s, i + 1)
    } else {
        i
    }
}

/// The architecture of a shape named `family` + `generation` + `attributes`
/// + "." + `size` (as in "m6gd.large"): Arm for the "a" family, for the "mac"
/// family past its first generation (Apple silicon), and for every family
/// whose attributes hold a 'g' (Graviton); x86-64 otherwise.
pub open spec fn arch_of(name: Seq<char>) -> CpuArch {
    let base = name.subrange(0, dot_from(name, 0));
    let family_end = letters_from(base, 0);
    let generation_end = digits_from(base, family_end);
    let attributes = base.subrange(generation_end, base.len() as int);
    let family = base.subrange(0, family_end);
    if family == seq!['a'] || (family == seq!['m', 'a', 'c'] && base.subrange(family_end, generation_end) != seq!['1'])
        || attributes.contains('g') {
        CpuArch::Aarch64
    } else {
        CpuArch::X86_64
    }
}

/// Derives the CPU architecture from a machine shape name such as "t4g.micro".
pub fn arch_of_instance_type(name: &str) -> (r: CpuArch)
    ensures
        r == arch_of(name@),
{
    let n = name.unicode_len();
    let mut end: usize = 0;
    while end < n && name.get_char(end) != '.'
        invariant
            n == name@.len(),
            end <= n,
            dot_from(name@, end as int) == dot_from(name@, 0),
        decreases n - end,
    {
        end += 1;
    }
    let base = name.substring_char(0, end);
    let ghost b = base@;
    let mut fam: usize = 0;
    while fam < end && 'a' <= base.get_char(fam) && base.get_char(fam) <= 'z'
        invariant
            b == base@,
            end == b.len(),
            fam <= end,
            letters_from(b, fam as int) == letters_from(b, 0),
        decreases end - fam,
    {
        fam += 1;
    }
    let mut gen: usize = fam;
    while gen < end && '0' <= base.get_char(gen) && base.get_char(gen) <= '9'
        invariant
            b == base@,
            end == b.len(),
            fam <= gen <= end,
            digits_from(b, gen as int) == digits_from(b, fam as int),
        decreases end - gen,
    {
        gen += 1;
    }
    assert(dot_from(name@, end as int) == end);
    assert(letters_from(b, fam as int) == fam);
    assert(digits_from(b, gen as int) == gen);
    assert(b == name@.subrange(0, dot_from(name@, 0)));
    if fam == 1 && base.get_char(0) == 'a' {
        assert(b.subrange(0, fam as int) =~= seq!['a']);
        return CpuArch::Aarch64;
    }
    assert(b.subrange(0, fam as int) != seq!['a']) by {
        if b.subrange(0, fam as int) == seq!['a'] {
            assert(b.subrange(0, fam as int).len() == 1);
            assert(b.subrange(0, fam as int)[0] == b[0]);
        }
    }
    let is_mac = fam == 3 && base.get_char(0) == 'm' && base.get_char(1) == 'a' && base.get_char(2) == 'c';
    assert(is_mac == (b.subrange(0, fam as int) == seq!['m', 'a', 'c'])) by {
        if is_mac {
            assert(b.subrange(0, fam as int) =~= seq!['m', 'a', 'c']);
        }
        if b.subrange(0, fam as int) == seq!['m', 'a', 'c'] {
            assert(b.subrange(0, fam as int).len() == 3);
            assert(fam == 3);
            assert(b.subrange(0, fam as int)[0] == b[0]);
            assert(b.subrange(0, fam as int)[1] == b[1]);
            assert(b.subrange(0, fam as int)[2] == b[2]);
        }
    }
    if is_mac {
        let first = gen == fam + 1 && base.get_char(fam) == '1';
        assert(first == (b.subrange(fam as int, gen as int) == seq!['1'])) by {
            if first {
                assert(b.subrange(fam as int, gen as int) =~= seq!['1']);
            }
            if b.subrange(fam as int, gen as int) == seq!['1'] {
                assert(b.subrange(fam as int, gen as int).len() == 1);
                assert(b.subrange(fam as int, gen as int)[0] == b[fam as int]);
            }
        }
        if !first {
            return CpuArch::Aarch64;
        }
    }
    let ghost attributes = b.subrange(gen as int, end as int);
    assert(arch_of(name@) == if attributes.contains('g') { CpuArch::Aarch64 } else { CpuArch::X86_64 });
    let mut k: usize = gen;
    while k < end
        invariant
            b == base@,
            end == b.len(),
            gen <= k <= end,
            attributes == b.subrange(gen as int, end as int),
            arch_of(name@) == if attributes.contains('g') { CpuArch::Aarch64 } else { CpuArch::X86_64 },
            forall|j: int| gen <= j < k ==> b[j] != 'g',
        decreases end - k,
    {
        if base.get_char(k) == 'g' {
            assert(attributes[k - gen] == 'g');
            assert(attributes.contains('g'));
            return CpuArch::Aarch64;
        }
        k += 1;
    }
    assert(!attributes.contains('g')) by {
        if attributes.contains('g') {
            let j = choose|j: int| 0 <= j < attributes.len() && attributes[j] == 'g';
            assert(b[j + gen] == 'g');
        }
    }
    CpuArch::X86_64
}

/// Opens the image lookup path.
pub const IMAGE_PATH_HEAD: &'static str = "resolve:ssm:/aws/service/canonical/ubuntu/server/";

/// Separates the release from the architecture in the image lookup path.
pub const IMAGE_PATH_MIDDLE: &'static str = "/stable/current/";

/// Closes the image lookup path.
pub const IMAGE_PATH_TAIL: &'static str = "/hvm/ebs-gp2/ami-id";

/// The provider-maintained lookup path of the current Ubuntu image for this
/// release and architecture.
pub open spec fn image_path_of(os: InstanceOs, arch: CpuArch) -> Seq<char> {
    IMAGE_PATH_HEAD@ + os.spec_version() + IMAGE_PATH_MIDDLE@ + arch.spec_ubuntu_arch() + IMAGE_PATH_TAIL@
}

/// Defines an instance to launch.
pub struct Ec2InstanceDefinition {
    pub instance_type: String,
    pub volume_size_gb: u32,
    pub network_interface_count: u32,
    pub os: InstanceOs,
    pub ami: Option<String>,
}

impl Ec2InstanceDefinition {
    /// Starts a definition of a machine of shape `instance_type` (such as
    /// "t2.micro"): 8GB root volume, one network interface, Ubuntu 22.04.
    pub fn new(instance_type: String) -> (r: Self)
        ensures
            r.instance_type@ == instance_type@,
            r.volume_size_gb == 8,
            r.network_interface_count == 1,
            r.os == InstanceOs::Ubuntu22_04,
            r.ami.is_none(),
    {
        Ec2InstanceDefinition {
            instance_type,
            volume_size_gb: 8,
            network_interface_count: 1,
            os: InstanceOs::Ubuntu22_04,
            ami: None,
        }
    }

    /// Sets the size of the root volume in gigabytes.
    pub fn volume_size_gigabytes(self, size_gb: u32) -> (r: Self)
        ensures
            r == (Ec2InstanceDefinition { volume_size_gb: size_gb, ..self }),
    {
        Ec2InstanceDefinition { volume_size_gb: size_gb, ..self }
    }

    /// Sets the number of network interfaces. More than one makes the
    /// machine reachable from outside only through an elastic address.
    pub fn network_interface_count(self, count: u32) -> (r: Self)
        ensures
            r == (Ec2InstanceDefinition { network_interface_count: count, ..self }),
    {
        Ec2InstanceDefinition { network_interface_count: count, ..self }
    }

    /// Sets the operating system.
    pub fn os(self, os: InstanceOs) -> (r: Self)
        ensures
            r == (Ec2InstanceDefinition { os, ..self }),
    {
        Ec2InstanceDefinition { os, ..self }
    }

    /// Sets an image to launch in place of the one looked up from the OS.
    pub fn override_ami(self, ami: Option<String>) -> (r: Self)
        ensures
            r == (Ec2InstanceDefinition { ami, ..self }),
    {
        Ec2InstanceDefinition { ami, ..self }
    }

    /// The image reference to launch: the explicit image when one is set,
    /// else the lookup path for the OS and the shape's architecture.
    pub open spec fn spec_image_id(&self) -> Seq<char> {
        match self.ami {
            Some(a) => a@,
            None => image_path_of(self.os, arch_of(self.instance_type@)),
        }
    }

    /// Computes the image reference to launch.
    pub fn image_id(&self) -> (r: String)
        ensures
            r@ == self.spec_image_id(),
    {
        match &self.ami {
            Some(a) => a.clone(),
            None => {
                let arch = arch_of_instance_type(self.instance_type.as_str());
                let mut s = String::from_str(IMAGE_PATH_HEAD);
                s.append(self.os.version());
                s.append(IMAGE_PATH_MIDDLE);
                s.append(arch.ubuntu_arch());
                s.append(IMAGE_PATH_TAIL);
                assert(s@ =~= image_path_of(self.os, arch_of(self.instance_type@)));
                s
            },
        }
    }
}

} // verus!
