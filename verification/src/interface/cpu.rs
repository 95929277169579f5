//! CPU interface model: architecture-tagged flag words, virtual-machine
//! detection values, and the introspection façade.

use vstd::prelude::*;

verus! {

/// The architecture a flag word belongs to.
#[derive(Clone, Copy, Debug, PartialEq, Eq, Structural)]
pub enum CpuArch {
    X86,
    Arm,
    Ppc,
    Riscv,
}

/// An architecture-tagged CPU feature word; the bit assignments within
/// each tag are the architecture's own.
#[derive(Clone, Copy, Debug, PartialEq, Eq, Structural)]
pub enum CpuFlags {
    X86(u32),
    Arm(u32),
    Ppc(u32),
    Riscv(u32),
}

impl CpuFlags {
    /// The round-trippable 32-bit encoding of the flag word.
    pub fn bits(self) -> (r: u32)
        ensures
            r == cpu_flags_bits(self),
    {
        match self {
            CpuFlags::X86(b) => b,
            CpuFlags::Arm(b) => b,
            CpuFlags::Ppc(b) => b,
            CpuFlags::Riscv(b) => b,
        }
    }

    /// Tag a raw flag word with its architecture.
    pub fn from_bits(arch: CpuArch, bits: u32) -> (r: CpuFlags)
        ensures
            cpu_flags_arch(r) == arch,
            cpu_flags_bits(r) == bits,
    {
        match arch {
            CpuArch::X86 => CpuFlags::X86(bits),
            CpuArch::Arm => CpuFlags::Arm(bits),
            CpuArch::Ppc => CpuFlags::Ppc(bits),
            CpuArch::Riscv => CpuFlags::Riscv(bits),
        }
    }
}

/// The raw bits of a flag word.
pub open spec fn cpu_flags_bits(f: CpuFlags) -> u32 {
    match f {
        CpuFlags::X86(b) => b,
        CpuFlags::Arm(b) => b,
        CpuFlags::Ppc(b) => b,
        CpuFlags::Riscv(b) => b,
    }
}

/// The architecture tag of a flag word.
pub open spec fn cpu_flags_arch(f: CpuFlags) -> CpuArch {
    match f {
        CpuFlags::X86(_) => CpuArch::X86,
        CpuFlags::Arm(_) => CpuArch::Arm,
        CpuFlags::Ppc(_) => CpuArch::Ppc,
        CpuFlags::Riscv(_) => CpuArch::Riscv,
    }
}

/// The flag word a tag and raw bits stand for.
pub open spec fn spec_cpu_flags_from(arch: CpuArch, bits: u32) -> CpuFlags {
    match arch {
        CpuArch::X86 => CpuFlags::X86(bits),
        CpuArch::Arm => CpuFlags::Arm(bits),
        CpuArch::Ppc => CpuFlags::Ppc(bits),
        CpuArch::Riscv => CpuFlags::Riscv(bits),
    }
}

/// Round trip of the flag encoding: the tag and the 32 bits determine the
/// flag word exactly.
pub proof fn lemma_cpu_flags_round_trip(f: CpuFlags)
    ensures
        spec_cpu_flags_from(cpu_flags_arch(f), cpu_flags_bits(f)) == f,
{
}

/// The hypervisor a machine runs under, if any.
#[derive(Clone, Copy, Debug, PartialEq, Eq, Structural)]
pub enum CpuVm {
    NoneVal,
    Other,
    Kvm,
    Qemu,
    Bochs,
    Xen,
    Uml,
    Vmware,
    Oracle,
    Microsoft,
    Zvm,
    Parallels,
    Bhyve,
    Qnx,
    Acrn,
    PowerVm,
}

/// The textual name of each detection value.
pub open spec fn spec_vm_name(v: CpuVm) -> Seq<char> {
    match v {
        CpuVm::NoneVal => "0"@,
        CpuVm::Other => "other"@,
        CpuVm::Kvm => "kvm"@,
        CpuVm::Qemu => "qemu"@,
        CpuVm::Bochs => "bochs"@,
        CpuVm::Xen => "xen"@,
        CpuVm::Uml => "uml"@,
        CpuVm::Vmware => "vmware"@,
        CpuVm::Oracle => "oracle"@,
        CpuVm::Microsoft => "microsoft"@,
        CpuVm::Zvm => "zvm"@,
        CpuVm::Parallels => "parallels"@,
        CpuVm::Bhyve => "bhyve"@,
        CpuVm::Qnx => "qnx"@,
        CpuVm::Acrn => "acrn"@,
        CpuVm::PowerVm => "powervm"@,
    }
}

impl CpuVm {
    /// The textual name of the detection value.
    pub fn name(self) -> (r: &'static str)
        ensures
            r@ == spec_vm_name(self),
    {
        match self {
            CpuVm::NoneVal => "0",
            CpuVm::Other => "other",
            CpuVm::Kvm => "kvm",
            CpuVm::Qemu => "qemu",
            CpuVm::Bochs => "bochs",
            CpuVm::Xen => "xen",
            CpuVm::Uml => "uml",
            CpuVm::Vmware => "vmware",
            CpuVm::Oracle => "oracle",
            CpuVm::Microsoft => "microsoft",
            CpuVm::Zvm => "zvm",
            CpuVm::Parallels => "parallels",
            CpuVm::Bhyve => "bhyve",
            CpuVm::Qnx => "qnx",
            CpuVm::Acrn => "acrn",
            CpuVm::PowerVm => "powervm",
        }
    }
}

/// The CPU introspection façade: what the machine reported, held as plain
/// values. The collaborator that reads the machine fills one in; callers
/// read and, for the force and denormal toggles, update it.
pub struct CpuImpl {
    pub flags: CpuFlags,
    pub count: u32,
    pub max_align: u32,
    pub vm_type: CpuVm,
    pub zero_denormals_enabled: bool,
}

impl CpuImpl {
    /// The feature flags.
    pub fn get_flags(&self) -> (r: CpuFlags)
        ensures
            r == self.flags,
    {
        self.flags
    }

    /// Override the feature flags; returns zero as the foreign contract
    /// does on success.
    pub fn force_flags(&mut self, flags: CpuFlags) -> (r: i32)
        ensures
            final(self).flags == flags,
            final(self).count == old(self).count,
            final(self).max_align == old(self).max_align,
            final(self).vm_type == old(self).vm_type,
            final(self).zero_denormals_enabled == old(self).zero_denormals_enabled,
            r == 0,
    {
        self.flags = flags;
        0
    }

    /// Number of processors.
    pub fn get_count(&self) -> (r: u32)
        ensures
            r == self.count,
    {
        self.count
    }

    /// Largest alignment any unit of this machine wants.
    pub fn get_max_align(&self) -> (r: u32)
        ensures
            r == self.max_align,
    {
        self.max_align
    }

    /// The detected hypervisor.
    pub fn get_vm_type(&self) -> (r: CpuVm)
        ensures
            r == self.vm_type,
    {
        self.vm_type
    }

    /// Record whether denormal results are flushed to zero; returns zero
    /// as the foreign contract does on success.
    pub fn zero_denormals(&mut self, enable: bool) -> (r: i32)
        ensures
            final(self).zero_denormals_enabled == enable,
            final(self).flags == old(self).flags,
            final(self).count == old(self).count,
            final(self).max_align == old(self).max_align,
            final(self).vm_type == old(self).vm_type,
            r == 0,
    {
        self.zero_denormals_enabled = enable;
        0
    }
}

} // verus!
