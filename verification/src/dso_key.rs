use vstd::prelude::*;
use vstd::string::StringExecFns;

use crate::buf;
use crate::strings;

verus! {

/// The CPU mode in which a record was produced, taken from the low bits of
/// the `misc` field of a perf event header.
#[derive(Debug, Clone, Copy, PartialEq, Eq, Structural)]
pub enum CpuMode {
    Unknown,
    Kernel,
    User,
    Hypervisor,
    GuestKernel,
    GuestUser,
}

/// The CPU mode that a `misc` value denotes: its low three bits.
pub open spec fn spec_cpu_mode_from_misc(misc: u16) -> CpuMode {
    let bits = misc & 7;
    if bits == 1 {
        CpuMode::Kernel
    } else if bits == 2 {
        CpuMode::User
    } else if bits == 3 {
        CpuMode::Hypervisor
    } else if bits == 4 {
        CpuMode::GuestKernel
    } else if bits == 5 {
        CpuMode::GuestUser
    } else {
        CpuMode::Unknown
    }
}

impl CpuMode {
    /// Initialize from the misc field of the perf event header.
    pub fn from_misc(misc: u16) -> (r: Self)
        ensures
            r == spec_cpu_mode_from_misc(misc),
    {
        let bits = misc & 7;
        proof {
            assert(misc & 7 < 8) by (bit_vector);
        }
        match bits {
            1 => Self::Kernel,
            2 => Self::User,
            3 => Self::Hypervisor,
            4 => Self::GuestKernel,
            5 => Self::GuestUser,
            _ => Self::Unknown,
        }
    }
}

/// A canonicalized key which can be used to cross-reference an mmap record
/// with an entry in the perf file's build ID list.
///
/// This is needed because the entries sometimes don't have matching path
/// strings: the mmap path may be "[kernel.kallsyms]_text" while the build ID
/// entry has "[kernel.kallsyms]" or even a full path to a vmlinux file.
#[derive(Debug, Clone, PartialEq, Eq, Hash)]
pub enum DsoKey {
    Kernel,
    GuestKernel,
    Vdso32,
    VdsoX32,
    Vdso64,
    Vsyscall,
    KernelModule {
        /// The name of the kernel module in brackets, e.g. "[snd-seq-device]".
        /// The name alone identifies the module, so the key keeps no path.
        name: String,
    },
    User {
        /// The file name of the user-space DSO.
        file_name: String,
        /// The full path of the user-space DSO. Part of the key because there
        /// can be multiple DSOs with the same file name at different paths.
        full_path: Vec<u8>,
    },
}

/// The shape of a `DsoKey`, with its strings as plain sequences.
pub enum DsoKeyModel {
    Kernel,
    GuestKernel,
    Vdso32,
    VdsoX32,
    Vdso64,
    Vsyscall,
    KernelModule { name: Seq<char> },
    User { file_name: Seq<char>, full_path: Seq<u8> },
}

impl DsoKey {
    /// The key with its strings replaced by their views.
    pub open spec fn model(&self) -> DsoKeyModel {
        match self {
            DsoKey::Kernel => DsoKeyModel::Kernel,
            DsoKey::GuestKernel => DsoKeyModel::GuestKernel,
            DsoKey::Vdso32 => DsoKeyModel::Vdso32,
            DsoKey::VdsoX32 => DsoKeyModel::VdsoX32,
            DsoKey::Vdso64 => DsoKeyModel::Vdso64,
            DsoKey::Vsyscall => DsoKeyModel::Vsyscall,
            DsoKey::KernelModule { name } => DsoKeyModel::KernelModule { name: name@ },
            DsoKey::User { file_name, full_path } => DsoKeyModel::User {
                file_name: file_name@,
                full_path: full_path@,
            },
        }
    }
}

/// The final path component of `p`: everything after the last slash, or all
/// of `p` when it holds no slash.
pub open spec fn basename_of(p: Seq<u8>) -> Seq<u8>
    decreases p.len(),
{
    if p.len() == 0 {
        p
    } else if p.last() == 47u8 {
        Seq::empty()
    } else {
        basename_of(p.drop_last()).push(p.last())
    }
}

proof fn lemma_basename_no_slash(p: Seq<u8>)
    requires
        forall|j: int| 0 <= j < p.len() ==> p[j] != 47u8,
    ensures
        basename_of(p) == p,
    decreases p.len(),
{
    if p.len() > 0 {
        lemma_basename_no_slash(p.drop_last());
        assert(basename_of(p.drop_last()).push(p.last()) =~= p);
    }
}

proof fn lemma_basename_split(p: Seq<u8>, i: int)
    requires
        0 <= i < p.len(),
        p[i] == 47u8,
        forall|j: int| i < j < p.len() ==> p[j] != 47u8,
    ensures
        basename_of(p) == p.subrange(i + 1, p.len() as int),
    decreases p.len(),
{
    if i == p.len() - 1 {
        assert(basename_of(p) =~= p.subrange(i + 1, p.len() as int));
    } else {
        lemma_basename_split(p.drop_last(), i);
        assert(basename_of(p.drop_last()).push(p.last()) =~= p.subrange(i + 1, p.len() as int));
    }
}

/// The bytes of `"//anon"`.
pub open spec fn anon_bytes() -> Seq<u8> {
    seq![47u8, 47u8, 97u8, 110u8, 111u8, 110u8]
}

/// The bytes of `"//anon"`, as a vector.
fn anon_vec() -> (r: Vec<u8>)
    ensures
        r@ == anon_bytes(),
{
    let v: Vec<u8> = vec![47u8, 47u8, 97u8, 110u8, 111u8, 110u8];
    proof {
        assert(v@ =~= anon_bytes());
    }
    v
}

/// The bytes of `"[stack]"`.
pub open spec fn stack_bytes() -> Seq<u8> {
    seq![91u8, 115u8, 116u8, 97u8, 99u8, 107u8, 93u8]
}

/// The bytes of `"[stack]"`, as a vector.
fn stack_vec() -> (r: Vec<u8>)
    ensures
        r@ == stack_bytes(),
{
    let v: Vec<u8> = vec![91u8, 115u8, 116u8, 97u8, 99u8, 107u8, 93u8];
    proof {
        assert(v@ =~= stack_bytes());
    }
    v
}

/// The bytes of `"[heap]"`.
pub open spec fn heap_bytes() -> Seq<u8> {
    seq![91u8, 104u8, 101u8, 97u8, 112u8, 93u8]
}

/// The bytes of `"[heap]"`, as a vector.
fn heap_vec() -> (r: Vec<u8>)
    ensures
        r@ == heap_bytes(),
{
    let v: Vec<u8> = vec![91u8, 104u8, 101u8, 97u8, 112u8, 93u8];
    proof {
        assert(v@ =~= heap_bytes());
    }
    v
}

/// The bytes of `"[vvar]"`.
pub open spec fn vvar_bytes() -> Seq<u8> {
    seq![91u8, 118u8, 118u8, 97u8, 114u8, 93u8]
}

/// The bytes of `"[vvar]"`, as a vector.
fn vvar_vec() -> (r: Vec<u8>)
    ensures
        r@ == vvar_bytes(),
{
    let v: Vec<u8> = vec![91u8, 118u8, 118u8, 97u8, 114u8, 93u8];
    proof {
        assert(v@ =~= vvar_bytes());
    }
    v
}

/// The bytes of `"[kernel.kallsyms]"`.
pub open spec fn kallsyms_bytes() -> Seq<u8> {
    seq![91u8, 107u8, 101u8, 114u8, 110u8, 101u8, 108u8, 46u8, 107u8, 97u8, 108u8, 108u8, 115u8, 121u8, 109u8, 115u8, 93u8]
}

/// The bytes of `"[kernel.kallsyms]"`, as a vector.
fn kallsyms_vec() -> (r: Vec<u8>)
    ensures
        r@ == kallsyms_bytes(),
{
    let v: Vec<u8> = vec![91u8, 107u8, 101u8, 114u8, 110u8, 101u8, 108u8, 46u8, 107u8, 97u8, 108u8, 108u8, 115u8, 121u8, 109u8, 115u8, 93u8];
    proof {
        assert(v@ =~= kallsyms_bytes());
    }
    v
}

/// The bytes of `"[guest.kernel.kallsyms"`.
pub open spec fn guest_kallsyms_bytes() -> Seq<u8> {
    seq![91u8, 103u8, 117u8, 101u8, 115u8, 116u8, 46u8, 107u8, 101u8, 114u8, 110u8, 101u8, 108u8, 46u8, 107u8, 97u8, 108u8, 108u8, 115u8, 121u8, 109u8, 115u8]
}

/// The bytes of `"[guest.kernel.kallsyms"`, as a vector.
fn guest_kallsyms_vec() -> (r: Vec<u8>)
    ensures
        r@ == guest_kallsyms_bytes(),
{
    let v: Vec<u8> = vec![91u8, 103u8, 117u8, 101u8, 115u8, 116u8, 46u8, 107u8, 101u8, 114u8, 110u8, 101u8, 108u8, 46u8, 107u8, 97u8, 108u8, 108u8, 115u8, 121u8, 109u8, 115u8];
    proof {
        assert(v@ =~= guest_kallsyms_bytes());
    }
    v
}

/// The bytes of `"[vdso32]"`.
pub open spec fn vdso32_bytes() -> Seq<u8> {
    seq![91u8, 118u8, 100u8, 115u8, 111u8, 51u8, 50u8, 93u8]
}

/// The bytes of `"[vdso32]"`, as a vector.
fn vdso32_vec() -> (r: Vec<u8>)
    ensures
        r@ == vdso32_bytes(),
{
    let v: Vec<u8> = vec![91u8, 118u8, 100u8, 115u8, 111u8, 51u8, 50u8, 93u8];
    proof {
        assert(v@ =~= vdso32_bytes());
    }
    v
}

/// The bytes of `"[vdsox32]"`.
pub open spec fn vdsox32_bytes() -> Seq<u8> {
    seq![91u8, 118u8, 100u8, 115u8, 111u8, 120u8, 51u8, 50u8, 93u8]
}

/// The bytes of `"[vdsox32]"`, as a vector.
fn vdsox32_vec() -> (r: Vec<u8>)
    ensures
        r@ == vdsox32_bytes(),
{
    let v: Vec<u8> = vec![91u8, 118u8, 100u8, 115u8, 111u8, 120u8, 51u8, 50u8, 93u8];
    proof {
        assert(v@ =~= vdsox32_bytes());
    }
    v
}

/// The bytes of `"[vdso]"`.
pub open spec fn vdso_bytes() -> Seq<u8> {
    seq![91u8, 118u8, 100u8, 115u8, 111u8, 93u8]
}

/// The bytes of `"[vdso]"`, as a vector.
fn vdso_vec() -> (r: Vec<u8>)
    ensures
        r@ == vdso_bytes(),
{
    let v: Vec<u8> = vec![91u8, 118u8, 100u8, 115u8, 111u8, 93u8];
    proof {
        assert(v@ =~= vdso_bytes());
    }
    v
}

/// The bytes of `"[vsyscall]"`.
pub open spec fn vsyscall_bytes() -> Seq<u8> {
    seq![91u8, 118u8, 115u8, 121u8, 115u8, 99u8, 97u8, 108u8, 108u8, 93u8]
}

/// The bytes of `"[vsyscall]"`, as a vector.
fn vsyscall_vec() -> (r: Vec<u8>)
    ensures
        r@ == vsyscall_bytes(),
{
    let v: Vec<u8> = vec![91u8, 118u8, 115u8, 121u8, 115u8, 99u8, 97u8, 108u8, 108u8, 93u8];
    proof {
        assert(v@ =~= vsyscall_bytes());
    }
    v
}

/// The bytes of `"["`.
pub open spec fn bracket_bytes() -> Seq<u8> {
    seq![91u8]
}

/// The bytes of `"["`, as a vector.
fn bracket_vec() -> (r: Vec<u8>)
    ensures
        r@ == bracket_bytes(),
{
    let v: Vec<u8> = vec![91u8];
    proof {
        assert(v@ =~= bracket_bytes());
    }
    v
}

/// The bytes of `".ko"`.
pub open spec fn ko_suffix_bytes() -> Seq<u8> {
    seq![46u8, 107u8, 111u8]
}

/// The bytes of `".ko"`, as a vector.
fn ko_suffix_vec() -> (r: Vec<u8>)
    ensures
        r@ == ko_suffix_bytes(),
{
    let v: Vec<u8> = vec![46u8, 107u8, 111u8];
    proof {
        assert(v@ =~= ko_suffix_bytes());
    }
    v
}

/// Where the classification rules put a path observed in the given CPU mode,
/// or `None` for mappings that denote no DSO at all.
pub open spec fn spec_detect(path: Seq<u8>, cpu_mode: CpuMode) -> Option<DsoKeyModel> {
    if path == anon_bytes() || path == stack_bytes() || path == heap_bytes() || path == vvar_bytes() {
        None
    } else if buf::starts_with_seq(path, kallsyms_bytes()) {
        if cpu_mode == CpuMode::GuestKernel {
            Some(DsoKeyModel::GuestKernel)
        } else {
            Some(DsoKeyModel::Kernel)
        }
    } else if buf::starts_with_seq(path, guest_kallsyms_bytes()) {
        Some(DsoKeyModel::GuestKernel)
    } else if path == vdso32_bytes() {
        Some(DsoKeyModel::Vdso32)
    } else if path == vdsox32_bytes() {
        Some(DsoKeyModel::VdsoX32)
    } else if path == vdso_bytes() {
        Some(DsoKeyModel::Vdso64)
    } else if path == vsyscall_bytes() {
        Some(DsoKeyModel::Vsyscall)
    } else if (cpu_mode == CpuMode::Kernel || cpu_mode == CpuMode::GuestKernel)
        && buf::starts_with_seq(path, bracket_bytes()) {
        Some(DsoKeyModel::KernelModule { name: strings::lossy_utf8(path) })
    } else {
        let filename = basename_of(path);
        if (cpu_mode == CpuMode::Kernel || cpu_mode == CpuMode::GuestKernel)
            && buf::ends_with_seq(filename, ko_suffix_bytes()) {
            let kmod_name = filename.subrange(0, filename.len() - 3);
            Some(
                DsoKeyModel::KernelModule {
                    name: seq!['['] + strings::lossy_utf8(kmod_name) + seq![']'],
                },
            )
        } else if cpu_mode == CpuMode::Kernel {
            Some(DsoKeyModel::Kernel)
        } else if cpu_mode == CpuMode::GuestKernel {
            Some(DsoKeyModel::GuestKernel)
        } else if cpu_mode == CpuMode::User || cpu_mode == CpuMode::GuestUser {
            Some(
                DsoKeyModel::User {
                    file_name: strings::lossy_utf8(filename),
                    full_path: path,
                },
            )
        } else {
            None
        }
    }
}

impl DsoKey {
    /// Make a `DsoKey` from a path and a `CpuMode` (which usually comes from
    /// a record's `misc` field).
    ///
    /// Returns `None` for things which cannot be detected as a DSO, such as
    /// `//anon` mappings.
    pub fn detect(path: &[u8], cpu_mode: CpuMode) -> (r: Option<Self>)
        ensures
            r is Some <==> spec_detect(path@, cpu_mode) is Some,
            r is Some ==> r->0.model() == spec_detect(path@, cpu_mode)->0,
    {
        if buf::bytes_equal(path, anon_vec().as_slice()) || buf::bytes_equal(
            path,
            stack_vec().as_slice(),
        ) || buf::bytes_equal(path, heap_vec().as_slice()) || buf::bytes_equal(
            path,
            vvar_vec().as_slice(),
        ) {
            return None;
        }

        if buf::starts_with(path, kallsyms_vec().as_slice()) {
            let dso_key = if matches!(cpu_mode, CpuMode::GuestKernel) {
                DsoKey::GuestKernel
            } else {
                DsoKey::Kernel
            };
            return Some(dso_key);
        }
        if buf::starts_with(path, guest_kallsyms_vec().as_slice()) {
            return Some(DsoKey::GuestKernel);
        }
        if buf::bytes_equal(path, vdso32_vec().as_slice()) {
            return Some(DsoKey::Vdso32);
        }
        if buf::bytes_equal(path, vdsox32_vec().as_slice()) {
            return Some(DsoKey::VdsoX32);
        }
        if buf::bytes_equal(path, vdso_vec().as_slice()) {
            // This could be a 32-bit vdso from a capture on a 32-bit machine,
            // but nothing in the record says so.
            return Some(DsoKey::Vdso64);
        }
        if buf::bytes_equal(path, vsyscall_vec().as_slice()) {
            return Some(DsoKey::Vsyscall);
        }
        let is_kernel_mode = matches!(cpu_mode, CpuMode::Kernel | CpuMode::GuestKernel);
        if is_kernel_mode && buf::starts_with(path, bracket_vec().as_slice()) {
            return Some(DsoKey::KernelModule { name: strings::lossy_string(path) });
        }

        let slash = buf::rposition_byte(path, 47);
        let plen = path.len();
        let filename: &[u8] = match slash {
            Some(final_slash_pos) => &path[final_slash_pos + 1..plen],
            None => path,
        };
        proof {
            match slash {
                Some(i) => lemma_basename_split(path@, i as int),
                None => lemma_basename_no_slash(path@),
            }
            assert(filename@ == basename_of(path@));
        }

        let dso_key = if is_kernel_mode && buf::ends_with(filename, ko_suffix_vec().as_slice()) {
            // "/lib/modules/.../snd-seq-device.ko" becomes "[snd-seq-device]".
            let kmod_name = &filename[0..filename.len() - 3];
            let mut name = String::new();
            name.append("[");
            name.append(strings::lossy_string(kmod_name).as_str());
            name.append("]");
            proof {
                reveal_strlit("[");
                reveal_strlit("]");
                assert(name@ =~= seq!['['] + strings::lossy_utf8(kmod_name@) + seq![']']);
            }
            DsoKey::KernelModule { name }
        } else if matches!(cpu_mode, CpuMode::Kernel) {
            DsoKey::Kernel
        } else if matches!(cpu_mode, CpuMode::GuestKernel) {
            DsoKey::GuestKernel
        } else if matches!(cpu_mode, CpuMode::User | CpuMode::GuestUser) {
            DsoKey::User {
                file_name: strings::lossy_string(filename),
                full_path: buf::copy_range(path, 0, path.len()),
            }
        } else {
            return None;
        };
        proof {
            assert(path@.subrange(0, path@.len() as int) =~= path@);
        }
        Some(dso_key)
    }

    /// The name string for this DSO: a short string fit for display.
    pub fn name(&self) -> (r: &str)
        ensures
            r@ == self.spec_name(),
    {
        match self {
            DsoKey::Kernel => "[kernel.kallsyms]",
            DsoKey::GuestKernel => "[guest.kernel.kallsyms]",
            DsoKey::Vdso32 => "[vdso32]",
            DsoKey::VdsoX32 => "[vdsox32]",
            DsoKey::Vdso64 => "[vdso]",
            DsoKey::Vsyscall => "[vsyscall]",
            DsoKey::KernelModule { name } => name.as_str(),
            DsoKey::User { file_name, .. } => file_name.as_str(),
        }
    }

    /// The name string of the key: the module or file name where the key
    /// carries one, a fixed tag otherwise.
    pub open spec fn spec_name(&self) -> Seq<char> {
        match self {
            DsoKey::Kernel => "[kernel.kallsyms]"@,
            DsoKey::GuestKernel => "[guest.kernel.kallsyms]"@,
            DsoKey::Vdso32 => "[vdso32]"@,
            DsoKey::VdsoX32 => "[vdsox32]"@,
            DsoKey::Vdso64 => "[vdso]"@,
            DsoKey::Vsyscall => "[vsyscall]"@,
            DsoKey::KernelModule { name } => name@,
            DsoKey::User { file_name, .. } => file_name@,
        }
    }

    /// Equality on the model: by variant, and for `User` keys by the full
    /// path, which distinguishes same-named files at different places.
    pub open spec fn eq_model(a: DsoKeyModel, b: DsoKeyModel) -> bool {
        match (a, b) {
            (DsoKeyModel::Kernel, DsoKeyModel::Kernel) => true,
            (DsoKeyModel::GuestKernel, DsoKeyModel::GuestKernel) => true,
            (DsoKeyModel::Vdso32, DsoKeyModel::Vdso32) => true,
            (DsoKeyModel::VdsoX32, DsoKeyModel::VdsoX32) => true,
            (DsoKeyModel::Vdso64, DsoKeyModel::Vdso64) => true,
            (DsoKeyModel::Vsyscall, DsoKeyModel::Vsyscall) => true,
            (DsoKeyModel::KernelModule { name: a }, DsoKeyModel::KernelModule { name: b }) => a
                == b,
            (
                DsoKeyModel::User { full_path: a, .. },
                DsoKeyModel::User { full_path: b, .. },
            ) => a == b,
            _ => false,
        }
    }

    /// Whether the two keys denote the same DSO: same variant, same module
    /// name, and for `User` keys the same full path.
    pub fn same_key(&self, other: &DsoKey) -> (r: bool)
        ensures
            r == Self::eq_model(self.model(), other.model()),
    {
        match (self, other) {
            (DsoKey::Kernel, DsoKey::Kernel) => true,
            (DsoKey::GuestKernel, DsoKey::GuestKernel) => true,
            (DsoKey::Vdso32, DsoKey::Vdso32) => true,
            (DsoKey::VdsoX32, DsoKey::VdsoX32) => true,
            (DsoKey::Vdso64, DsoKey::Vdso64) => true,
            (DsoKey::Vsyscall, DsoKey::Vsyscall) => true,
            (DsoKey::KernelModule { name: a }, DsoKey::KernelModule { name: b }) => a.eq(b),
            (DsoKey::User { full_path: a, .. }, DsoKey::User { full_path: b, .. }) => {
                buf::bytes_equal(a.as_slice(), b.as_slice())
            }
            _ => false,
        }
    }
}

} // verus!
