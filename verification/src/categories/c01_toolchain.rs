//! The toolchain: loading of modules, compute capability, entry points and 64-bit addresses.

use vstd::prelude::*;
use crate::expr::{differs, entry, here, ix, least, len, lt, num, plus, reg, same_as, times};
use crate::harness::{CategoryRun, Outcome};
use crate::message::{given, hex, note0, note1, note2, note3, note4, remark1, remark2, remark3, val};
use crate::render::spell;
use crate::scalar::Scalar;
use crate::script::{
    after, allocate, capability, check, copy_in, copy_out, fault1, fill, kernel_known, ordinal,
    Plan, put, release, resolve, scan, Script, Step, sync,
};
use crate::tables::Table;
use crate::message::Note;
use crate::ptx::{judge, Defect, Flaw, Found, PtxFile};

verus! {

/// The directory of the kernels, from that of the package.
pub open spec fn kernels_of(package: Seq<char>) -> Seq<char> {
    if package.len() == 0 || package.last() == '/' {
        package + "../../kernels"@
    } else {
        package + "/../../kernels"@
    }
}

/// Names the directory of the kernels, from that of the package.
pub fn kernels_dir(package: &str) -> (directory: String)
    ensures
        directory@ == kernels_of(package@),
{
    let letters = spell(package);
    let mut directory = package.to_string();
    if letters.len() == 0 || letters[letters.len() - 1] == '/' {
        directory.append("../../kernels");
    } else {
        directory.append("/../../kernels");
    }
    directory
}

/// The steps of [`test_ptx_loads_successfully`].
pub open spec fn ptx_loads_successfully_steps() -> Seq<Step> {
    seq![
        sync(note0("Device sync after PTX load failed: {}")),
        ordinal(0),
        check(lt(num(100), reg(0)), note1("Invalid device ordinal: {}", reg(0))),
    ]
}

/// After the modules have been loaded, the device reports no fault and a plausible ordinal.
pub fn test_ptx_loads_successfully() -> (script: Script)
    ensures
        script@ == crate::script::plan(
            "test_ptx_loads_successfully",
            ptx_loads_successfully_steps(),
        ),
{
    let steps: Vec<Step> = vec![
        sync(note0("Device sync after PTX load failed: {}")),
        ordinal(0),
        check(lt(num(100), reg(0)), note1("Invalid device ordinal: {}", reg(0))),
    ];
    Script::new("test_ptx_loads_successfully", steps)
}

/// The steps of [`test_compute_capability_check`].
pub open spec fn compute_capability_check_steps() -> Seq<Step> {
    seq![
        capability(0, 1, note0("Failed to query compute capability: {}")),
        check(
            lt(reg(0), num(7)),
            note2(
                "Compute capability {}.{} does not meet minimum sm_70 requirement",
                reg(0),
                reg(1),
            ),
        ),
        sync(note0("Sync failed: {}")),
    ]
}

/// The device is an `sm_70` or later.
pub fn test_compute_capability_check() -> (script: Script)
    ensures
        script@ == crate::script::plan(
            "test_compute_capability_check",
            compute_capability_check_steps(),
        ),
{
    let steps: Vec<Step> = vec![
        capability(0, 1, note0("Failed to query compute capability: {}")),
        check(
            lt(reg(0), num(7)),
            note2(
                "Compute capability {}.{} does not meet minimum sm_70 requirement",
                reg(0),
                reg(1),
            ),
        ),
        sync(note0("Sync failed: {}")),
    ];
    Script::new("test_compute_capability_check", steps)
}

/// What a script for kernel resolution is made of so far: its steps, the texts that it speaks of,
/// and whether it can still go on.
pub struct Draft {
    pub steps: Seq<Step>,
    pub texts: Seq<Seq<char>>,
    pub open: bool,
}

/// What is said of a flaw of a PTX file. Text `first` is the file's name, or for a file that
/// could not be read its path; the next text is the detail.
pub open spec fn flaw_note(flaw: Flaw, first: u64) -> Note {
    match flaw {
        Flaw::Stem => remark1("Invalid PTX filename stem: {}", given(first)),
        Flaw::Unreadable(_) => remark2(
            "Failed to read {}: {}",
            given(first),
            given(after(first, 1)),
        ),
        Flaw::AddressSize(_) => remark2(
            "{}: expected .address_size 64, got '{}'",
            given(first),
            given(after(first, 1)),
        ),
        Flaw::Target(_) => remark2(
            "{}: expected .target sm_70 or later, got '{}'",
            given(first),
            given(after(first, 1)),
        ),
        Flaw::NoEntries => remark1("{}: no .entry kernels found", given(first)),
        Flaw::Duplicate(_) => remark2(
            "{}: duplicate .entry name {}",
            given(first),
            given(after(first, 1)),
        ),
    }
}

/// The texts that a flaw speaks of.
pub open spec fn flaw_texts(flaw: Flaw, file: Found) -> Seq<Seq<char>> {
    match flaw {
        Flaw::Stem => seq![file.filename],
        Flaw::Unreadable(reason) => seq![file.path, reason],
        Flaw::AddressSize(size) => seq![file.filename, size],
        Flaw::Target(target) => seq![file.filename, target],
        Flaw::NoEntries => seq![file.filename],
        Flaw::Duplicate(entry) => seq![file.filename, entry],
    }
}

/// The steps that resolve one entry point. Text `first` is the file's name, the next one the
/// module's name, and the entry points follow.
pub open spec fn entry_round(first: u64, k: u64) -> Seq<Step> {
    seq![
        put(0, plus(reg(0), num(1))),
        resolve(after(first, 1), after(after(first, 2), k), 2),
        check(
            same_as(reg(2), num(0)),
            remark3(
                "{}: failed to resolve kernel function '{}' from module '{}'",
                given(first),
                given(after(after(first, 2), k)),
                given(after(first, 1)),
            ),
        ),
        put(1, plus(reg(1), num(1))),
    ]
}

/// Writes the steps that resolve one entry point.
fn entry_steps(first: u64, k: u64) -> (steps: Vec<Step>)
    requires
        first + 2 + k <= u64::MAX,
    ensures
        steps@ == entry_round(first, k),
{
    vec![
        put(0, plus(reg(0), num(1))),
        resolve(after(first, 1), after(after(first, 2), k), 2),
        check(
            same_as(reg(2), num(0)),
            remark3(
                "{}: failed to resolve kernel function '{}' from module '{}'",
                given(first),
                given(after(after(first, 2), k)),
                given(after(first, 1)),
            ),
        ),
        put(1, plus(reg(1), num(1))),
    ]
}

/// A draft with one file more: its entry points are resolved in the module `xlog_` and the
/// file's stem, or what is wrong with it ends the script.
pub open spec fn drafted(draft: Draft, file: Found) -> Draft {
    let first = draft.texts.len() as u64;
    if !draft.open {
        draft
    } else {
        match crate::ptx::judged(file) {
            Ok(entries) => Draft {
                steps: draft.steps + crate::script::rounds(
                    entries.len() as int,
                    |k: int| entry_round(first, k as u64),
                ),
                texts: draft.texts + seq![file.filename, "xlog_"@ + file.stem] + entries,
                open: true,
            },
            Err(flaw) => Draft {
                steps: draft.steps + seq![check(num(1), flaw_note(flaw, first))],
                texts: draft.texts + flaw_texts(flaw, file),
                open: false,
            },
        }
    }
}

/// The draft for the first `count` files.
pub open spec fn draft_of(directory: Seq<char>, files: Seq<Found>, count: int) -> Draft
    decreases count,
{
    if count <= 0 {
        Draft { steps: Seq::empty(), texts: seq![directory], open: true }
    } else {
        drafted(draft_of(directory, files, count - 1), files[count - 1])
    }
}

/// The end of a script for kernel resolution.
pub open spec fn resolution_end() -> Seq<Step> {
    seq![
        sync(note0("Sync failed after function resolution: {}")),
        check(
            differs(reg(1), reg(0)),
            note2("Not all functions resolved: {}/{}", reg(1), reg(0)),
        ),
    ]
}

/// The script of [`test_kernel_function_resolution`].
pub open spec fn kernel_function_resolution(
    directory: Seq<char>,
    listing: Result<Seq<Found>, Seq<char>>,
) -> Plan {
    let name = "test_kernel_function_resolution";
    match listing {
        Err(reason) => Plan {
            name,
            steps: seq![
                check(
                    num(1),
                    remark2("Failed to read kernels dir {}: {}", given(0), given(1)),
                ),
            ],
            texts: seq![directory, reason],
        },
        Ok(files) => if files.len() == 0 {
            Plan {
                name,
                steps: seq![check(num(1), remark1("No PTX files found under {}", given(0)))],
                texts: seq![directory],
            }
        } else {
            let draft = draft_of(directory, files, files.len() as int);
            Plan {
                name,
                steps: if draft.open {
                    draft.steps + resolution_end()
                } else {
                    draft.steps
                },
                texts: draft.texts,
            }
        },
    }
}

/// The contents of a list of files.
pub open spec fn found_in_list(files: Seq<PtxFile>) -> Seq<Found> {
    Seq::new(files.len(), |k: int| files[k]@)
}

/// The contents of a listing.
pub open spec fn listed(listing: Result<Vec<PtxFile>, String>) -> Result<Seq<Found>, Seq<char>> {
    match listing {
        Ok(files) => Ok(found_in_list(files@)),
        Err(reason) => Err(reason@),
    }
}

/// Adds a text.
fn add_text(texts: &mut Vec<String>, text: String)
    ensures
        crate::memory::texts_in(final(texts)@) == crate::memory::texts_in(old(texts)@).push(text@),
{
    let ghost before = crate::memory::texts_in(texts@);
    texts.push(text);
    assert(crate::memory::texts_in(texts@) =~= before.push(text@));
}

/// Ends a script with what is wrong with a PTX file.
fn end_with_defect(
    steps: &mut Vec<Step>,
    texts: &mut Vec<String>,
    file: &PtxFile,
    defect: Defect,
)
    ensures
        final(steps)@ == old(steps)@ + seq![
            check(num(1), flaw_note(defect@, old(texts)@.len() as u64)),
        ],
        crate::memory::texts_in(final(texts)@) == crate::memory::texts_in(old(texts)@)
            + flaw_texts(defect@, file@),
{
    let first: u64 = texts.len() as u64;
    let ghost before = crate::memory::texts_in(texts@);
    let ghost flaw = defect@;
    match defect {
        Defect::Stem => {
            add_text(texts, file.filename.clone());
            steps.push(
                check(num(1), remark1("Invalid PTX filename stem: {}", given(first))),
            );
        },
        Defect::Unreadable(reason) => {
            add_text(texts, file.path.clone());
            let second: u64 = texts.len() as u64;
            add_text(texts, reason);
            steps.push(
                check(
                    num(1),
                    remark2("Failed to read {}: {}", given(first), given(second)),
                ),
            );
        },
        Defect::AddressSize(size) => {
            add_text(texts, file.filename.clone());
            let second: u64 = texts.len() as u64;
            add_text(texts, size);
            steps.push(
                check(
                    num(1),
                    remark2(
                        "{}: expected .address_size 64, got '{}'",
                        given(first),
                        given(second),
                    ),
                ),
            );
        },
        Defect::Target(target) => {
            add_text(texts, file.filename.clone());
            let second: u64 = texts.len() as u64;
            add_text(texts, target);
            steps.push(
                check(
                    num(1),
                    remark2(
                        "{}: expected .target sm_70 or later, got '{}'",
                        given(first),
                        given(second),
                    ),
                ),
            );
        },
        Defect::NoEntries => {
            add_text(texts, file.filename.clone());
            steps.push(check(num(1), remark1("{}: no .entry kernels found", given(first))));
        },
        Defect::Duplicate(entry) => {
            add_text(texts, file.filename.clone());
            let second: u64 = texts.len() as u64;
            add_text(texts, entry);
            steps.push(
                check(
                    num(1),
                    remark2(
                        "{}: duplicate .entry name {}",
                        given(first),
                        given(second),
                    ),
                ),
            );
        },
    }
    assert(crate::memory::texts_in(texts@) =~= before + flaw_texts(flaw, file@));
}

/// Goes on with the entry points of a PTX file.
fn go_on_with_entries(
    steps: &mut Vec<Step>,
    texts: &mut Vec<String>,
    file: &PtxFile,
    entries: Vec<String>,
)
    ensures
        final(steps)@ == old(steps)@ + crate::script::rounds(
            entries@.len() as int,
            |k: int| entry_round(old(texts)@.len() as u64, k as u64),
        ),
        crate::memory::texts_in(final(texts)@) == crate::memory::texts_in(old(texts)@) + seq![
            file@.filename,
            "xlog_"@ + file@.stem,
        ] + crate::memory::texts_in(entries@),
{
    let first: u64 = texts.len() as u64;
    let ghost before = crate::memory::texts_in(texts@);
    let ghost names = crate::memory::texts_in(entries@);
    add_text(texts, file.filename.clone());
    let module = String::from_str("xlog_").concat(file.stem.as_str());
    add_text(texts, module);
    let count: usize = entries.len();
    let mut entries = entries;
    let ghost headed = crate::memory::texts_in(texts@);
    let ghost joined = texts@ + entries@;
    texts.append(&mut entries);
    assert(crate::memory::texts_in(texts@) =~= headed + names);
    assert(headed =~= before + seq![file@.filename, "xlog_"@ + file@.stem]);
    let total: u64 = texts.len() as u64;
    assert(total == first + 2 + count);
    let ghost start = steps@;
    let mut k: u64 = 0;
    while k < count as u64
        invariant
            k <= count,
            total == first + 2 + count,
            steps@ == start + crate::script::rounds(
                k as int,
                |k: int| entry_round(first, k as u64),
            ),
        decreases count - k,
    {
        let mut round = entry_steps(first, k);
        steps.append(&mut round);
        k = k + 1;
    }
}

/// Every entry point of every PTX file in the kernels directory can be resolved in its module.
///
/// The files come in the order in which they are looked at. A file with a flaw ends the script:
/// nothing after it is looked at.
pub fn test_kernel_function_resolution(
    directory: String,
    listing: Result<Vec<PtxFile>, String>,
) -> (script: Script)
    ensures
        script@ == kernel_function_resolution(directory@, listed(listing)),
{
    let name = "test_kernel_function_resolution";
    let ghost place = directory@;
    let mut texts: Vec<String> = Vec::new();
    assert(crate::memory::texts_in(texts@) =~= Seq::empty());
    add_text(&mut texts, directory);
    assert(crate::memory::texts_in(texts@) =~= seq![place]);
    let mut steps: Vec<Step> = Vec::new();
    match listing {
        Err(reason) => {
            add_text(&mut texts, reason);
            steps.push(
                check(num(1), remark2("Failed to read kernels dir {}: {}", given(0), given(1))),
            );
            let script = Script { name, steps, texts };
            assert(script@.texts =~= seq![place, reason@]);
            assert(script@.steps =~= kernel_function_resolution(
                place,
                listed(Err(reason)),
            ).steps);
            script
        },
        Ok(files) => {
            let ghost found = found_in_list(files@);
            if files.len() == 0 {
                steps.push(check(num(1), remark1("No PTX files found under {}", given(0))));
                let script = Script { name, steps, texts };
                assert(script@.steps =~= kernel_function_resolution(place, Ok(found)).steps);
                return script;
            }
            let mut open = true;
            let mut k: usize = 0;
            while k < files.len() && open
                invariant
                    k <= files.len(),
                    found == found_in_list(files@),
                    (Draft { steps: steps@, texts: crate::memory::texts_in(texts@), open })
                        == draft_of(place, found, k as int),
                decreases files.len() - k,
            {
                assert(found[k as int] == files@[k as int]@);
                match judge(&files[k]) {
                    Ok(entries) => go_on_with_entries(&mut steps, &mut texts, &files[k], entries),
                    Err(defect) => {
                        end_with_defect(&mut steps, &mut texts, &files[k], defect);
                        open = false;
                    },
                }
                k = k + 1;
            }
            proof {
                if !open {
                    lemma_draft_stays_closed(place, found, k as int, files@.len() as int);
                }
            }
            if open {
                steps.push(sync(note0("Sync failed after function resolution: {}")));
                steps.push(
                    check(
                        differs(reg(1), reg(0)),
                        note2("Not all functions resolved: {}/{}", reg(1), reg(0)),
                    ),
                );
            }
            let script = Script { name, steps, texts };
            assert(script@.steps =~= kernel_function_resolution(place, Ok(found)).steps);
            script
        },
    }
}

/// A draft that has ended does not change.
proof fn lemma_draft_stays_closed(directory: Seq<char>, files: Seq<Found>, short: int, long: int)
    requires
        short <= long,
        !draft_of(directory, files, short).open,
    ensures
        draft_of(directory, files, long) == draft_of(directory, files, short),
    decreases long - short,
{
    if short < long {
        lemma_draft_stays_closed(directory, files, short, long - 1);
        reveal_with_fuel(draft_of, 2);
    }
}

/// The steps of [`test_ptx_module_attributes`].
pub open spec fn ptx_module_attributes_steps() -> Seq<Step> {
    seq![
        fill(0, num(16), num(0xFFFF_FFFF_FFFF_FFFF)),
        allocate(Scalar::U64, 16, 0, note0("Failed to allocate GPU buffer: {}")),
        copy_in(0, 0, note0("Failed to upload data to GPU: {}")),
        sync(note0("Sync failed after upload: {}")),
        copy_out(0, Scalar::U64, 1, note0("Failed to download data from GPU: {}")),
        scan(
            num(0),
            len(1),
            1,
            fault1(
                differs(here(1), num(0xFFFF_FFFF_FFFF_FFFF)),
                note3(
                    "64-bit value mismatch at index {}: expected {}, got {}",
                    ix(),
                    num(0xFFFF_FFFF_FFFF_FFFF),
                    here(1),
                ),
            ),
        ),
        fill(2, num(6), entry(Table::BitPatterns, ix())),
        allocate(Scalar::U64, 6, 1, note0("Failed to allocate pattern buffer: {}")),
        copy_in(2, 1, note0("Failed to upload patterns: {}")),
        copy_out(1, Scalar::U64, 3, note0("Failed to download patterns: {}")),
        scan(
            num(0),
            least(len(2), len(3)),
            1,
            fault1(
                differs(here(2), here(3)),
                remark3(
                    "64-bit pattern mismatch at index {}: expected 0x{}, got 0x{}",
                    val(ix()),
                    hex(here(2), 16),
                    hex(here(3), 16),
                ),
            ),
        ),
        sync(note0("Final sync failed: {}")),
    ]
}

/// 64-bit values pass through raw device memory unharmed.
pub fn test_ptx_module_attributes() -> (script: Script)
    ensures
        script@ == crate::script::plan("test_ptx_module_attributes", ptx_module_attributes_steps()),
{
    let steps: Vec<Step> = vec![
        fill(0, num(16), num(0xFFFF_FFFF_FFFF_FFFF)),
        allocate(Scalar::U64, 16, 0, note0("Failed to allocate GPU buffer: {}")),
        copy_in(0, 0, note0("Failed to upload data to GPU: {}")),
        sync(note0("Sync failed after upload: {}")),
        copy_out(0, Scalar::U64, 1, note0("Failed to download data from GPU: {}")),
        scan(
            num(0),
            len(1),
            1,
            fault1(
                differs(here(1), num(0xFFFF_FFFF_FFFF_FFFF)),
                note3(
                    "64-bit value mismatch at index {}: expected {}, got {}",
                    ix(),
                    num(0xFFFF_FFFF_FFFF_FFFF),
                    here(1),
                ),
            ),
        ),
        fill(2, num(6), entry(Table::BitPatterns, ix())),
        allocate(Scalar::U64, 6, 1, note0("Failed to allocate pattern buffer: {}")),
        copy_in(2, 1, note0("Failed to upload patterns: {}")),
        copy_out(1, Scalar::U64, 3, note0("Failed to download patterns: {}")),
        scan(
            num(0),
            least(len(2), len(3)),
            1,
            fault1(
                differs(here(2), here(3)),
                remark3(
                    "64-bit pattern mismatch at index {}: expected 0x{}, got 0x{}",
                    val(ix()),
                    hex(here(2), 16),
                    hex(here(3), 16),
                ),
            ),
        ),
        sync(note0("Final sync failed: {}")),
    ];
    Script::new("test_ptx_module_attributes", steps)
}

/// One round of the iterations of [`test_repeated_jit_compilation`].
pub open spec fn repeated_jit_compilation_iterations_round(i: u64) -> Seq<Step> {
    seq![
        fill(0, num(1024), plus(ix(), times(num(i), num(1000)))),
        allocate(Scalar::U32, 1024, 0, note1("Allocation failed at iteration {}: {}", num(i))),
        copy_in(0, 0, note1("Upload failed at iteration {}: {}", num(i))),
        copy_out(0, Scalar::U32, 1, note1("Download failed at iteration {}: {}", num(i))),
        scan(
            num(0),
            least(len(0), len(1)),
            1,
            fault1(
                differs(here(0), here(1)),
                note4(
                    "Data mismatch at iteration {}, index {}: expected {}, got {}",
                    num(i),
                    ix(),
                    here(0),
                    here(1),
                ),
            ),
        ),
        sync(note1("Sync failed at iteration {}: {}", num(i))),
        release(0),
    ]
}

/// Writes one round of the iterations of [`test_repeated_jit_compilation`].
fn repeated_jit_compilation_iterations(i: u64) -> (steps: Vec<Step>)
    requires
        i < 15,
    ensures
        steps@ == repeated_jit_compilation_iterations_round(i),
{
    vec![
        fill(0, num(1024), plus(ix(), times(num(i), num(1000)))),
        allocate(Scalar::U32, 1024, 0, note1("Allocation failed at iteration {}: {}", num(i))),
        copy_in(0, 0, note1("Upload failed at iteration {}: {}", num(i))),
        copy_out(0, Scalar::U32, 1, note1("Download failed at iteration {}: {}", num(i))),
        scan(
            num(0),
            least(len(0), len(1)),
            1,
            fault1(
                differs(here(0), here(1)),
                note4(
                    "Data mismatch at iteration {}, index {}: expected {}, got {}",
                    num(i),
                    ix(),
                    here(0),
                    here(1),
                ),
            ),
        ),
        sync(note1("Sync failed at iteration {}: {}", num(i))),
        release(0),
    ]
}

/// The end of [`test_repeated_jit_compilation`].
pub open spec fn repeated_jit_compilation_end_steps() -> Seq<Step> {
    seq![
        kernel_known(0),
        check(
            same_as(reg(0), num(0)),
            note0("Failed to resolve kernel after repeated iterations"),
        ),
        sync(note0("Final sync failed: {}")),
    ]
}

/// Writes the end of [`test_repeated_jit_compilation`].
fn repeated_jit_compilation_end() -> (steps: Vec<Step>)
    ensures
        steps@ == repeated_jit_compilation_end_steps(),
{
    vec![
        kernel_known(0),
        check(
            same_as(reg(0), num(0)),
            note0("Failed to resolve kernel after repeated iterations"),
        ),
        sync(note0("Final sync failed: {}")),
    ]
}

/// The steps of [`test_repeated_jit_compilation`].
pub open spec fn repeated_jit_compilation_steps() -> Seq<Step> {
    crate::script::rounds(15, |i: int| repeated_jit_compilation_iterations_round(i as u64))
        + repeated_jit_compilation_end_steps()
}

/// Raw device memory is used again and again, and the kernels stay loaded.
pub fn test_repeated_jit_compilation() -> (script: Script)
    ensures
        script@ == crate::script::plan(
            "test_repeated_jit_compilation",
            repeated_jit_compilation_steps(),
        ),
{
    let mut steps: Vec<Step> = Vec::new();
    let mut i: u64 = 0;
    while i < 15
        invariant
            i <= 15,
            steps@ == crate::script::rounds(
                i as int,
                |i: int| repeated_jit_compilation_iterations_round(i as u64),
            ),
        decreases 15 - i,
    {
        let mut round = repeated_jit_compilation_iterations(i);
        steps.append(&mut round);
        i = i + 1;
    }
    let mut more = repeated_jit_compilation_end();
    steps.append(&mut more);
    Script::new("test_repeated_jit_compilation", steps)
}

/// The tests of the category.
pub open spec fn tests(directory: Seq<char>, listing: Result<Seq<Found>, Seq<char>>) -> Seq<Plan> {
    seq![
        crate::script::plan("test_ptx_loads_successfully", ptx_loads_successfully_steps()),
        crate::script::plan("test_compute_capability_check", compute_capability_check_steps()),
        kernel_function_resolution(directory, listing),
        crate::script::plan("test_ptx_module_attributes", ptx_module_attributes_steps()),
        crate::script::plan("test_repeated_jit_compilation", repeated_jit_compilation_steps()),
    ]
}

/// Lists the tests of the category, in the order in which they run. The kernels directory, and the
/// PTX files in it in rising order of their paths, are given.
pub fn run_all(directory: String, listing: Result<Vec<PtxFile>, String>) -> (category: CategoryRun)
    ensures
        category.title() == "c01_toolchain",
        category.waiting() == tests(directory@, listed(listing)),
        category.test() is None,
        category.run() is None,
        category.done() == Seq::<Outcome>::empty(),
{
    let scripts: Vec<Script> = vec![
        test_ptx_loads_successfully(),
        test_compute_capability_check(),
        test_kernel_function_resolution(directory, listing),
        test_ptx_module_attributes(),
        test_repeated_jit_compilation(),
    ];
    let category = CategoryRun::new("c01_toolchain", scripts);
    assert(category.waiting() =~= tests(directory@, listed(listing)));
    category
}

} // verus!
