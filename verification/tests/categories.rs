//! Runs scripts against a simulated device.

use std::collections::HashMap;
use xlog_cuda_tests::categories::{
    c01_toolchain,
    c02_launch_config,
    c03_pointer_bounds,
    c04_address_space,
    c05_global_memory,
    c06_shared_memory,
    c07_local_memory,
    c08_synchronization,
    c09_warp_level,
    c10_block_grid,
    c11_control_flow,
    c12_atomics,
    c13_floating_point,
    c14_integer,
    c15_determinism,
    c16_async_pipeline,
    c17_caching,
    c18_host_device,
    c19_multi_stream,
    c20_multi_gpu,
    c21_hardware,
};
use xlog_cuda_tests::ptx::PtxFile;
use xlog_cuda_tests::machine::{Machine, Reply, Verdict};
use xlog_cuda_tests::scalar::{rank, Scalar};
use xlog_cuda_tests::script::{column_names, Request, Script};

/// A buffer of the simulated device.
#[derive(Clone)]
struct Buffer {
    scalar: Scalar,
    columns: Vec<Vec<u64>>,
}

/// A device that computes correctly, apart from the faults that are set.
struct Device {
    buffers: HashMap<u64, Buffer>,
    raw: HashMap<u64, Vec<u64>>,
    /// How many requests have been served.
    served: usize,
    /// The request that is refused, counted from zero.
    refuse: Option<usize>,
    /// The request whose answer has its first word or its count changed.
    spoil: Option<usize>,
    /// How often each timer is still running when it is asked for.
    ticks: u64,
    budget: u64,
    devices: u64,
    /// What the device does wrong.
    habit: Habit,
    log: Vec<Request>,
}

/// A fault that a device has all the time.
#[derive(Clone, Copy, PartialEq)]
enum Habit {
    /// It has none.
    Good,
    /// A sort leaves the rows as they are.
    Unsorted,
    /// A sort changes the buffer that it is given, too.
    SortsInPlace,
    /// A sort turns the order of rows with equal keys round.
    Unstable,
    /// A filter keeps all rows.
    KeepsAll,
    /// Removing duplicates leaves them.
    KeepsDuplicates,
    /// A join loses its last row.
    LosesRow,
    /// An uploaded column has its last word changed.
    Garbles,
}

impl Device {
    fn new() -> Device {
        Device {
            buffers: HashMap::new(),
            raw: HashMap::new(),
            served: 0,
            refuse: None,
            spoil: None,
            ticks: 12,
            budget: 16_000_000,
            devices: 1,
            habit: Habit::Good,
            log: Vec::new(),
        }
    }

    fn rows(&self, of: u64) -> u64 {
        self.buffers[&of].columns[0].len() as u64
    }

    fn take(buffer: &Buffer, order: &[usize]) -> Buffer {
        Buffer {
            scalar: buffer.scalar,
            columns: buffer
                .columns
                .iter()
                .map(|c| order.iter().map(|&k| c[k]).collect())
                .collect(),
        }
    }

    fn perform(&mut self, request: Request, machine: &Machine) -> Reply {
        let number = self.served;
        self.served += 1;
        self.log.push(request);
        if self.refuse == Some(number) {
            return Reply::Failed("refused".to_string());
        }
        let reply = self.serve(request, machine);
        if self.spoil == Some(number) {
            return match reply {
                Reply::Count(n) => Reply::Count(n + 1),
                Reply::Words(mut words) => {
                    let last = words.len() - 1;
                    words[last] = words[last].wrapping_add(1);
                    words.swap(0, last);
                    Reply::Words(words)
                }
                other => other,
            };
        }
        reply
    }

    fn serve(&mut self, request: Request, machine: &Machine) -> Reply {
        match request {
            Request::Create { into, layout, scalar, from } => {
                let width = column_names(layout).len() as u64;
                let mut columns: Vec<Vec<u64>> =
                    (0..width).map(|k| machine.column(from + k).unwrap().clone()).collect();
                if self.habit == Habit::Garbles {
                    if let Some(word) = columns[0].last_mut() {
                        *word = word.wrapping_add(1);
                    }
                }
                self.buffers.insert(into, Buffer { scalar, columns });
                Reply::Done
            }
            Request::CreateEmpty { into, layout, scalar } => {
                let columns = column_names(layout).iter().map(|_| Vec::new()).collect();
                self.buffers.insert(into, Buffer { scalar, columns });
                Reply::Done
            }
            Request::Sort { of, keys, into } => {
                let buffer = &self.buffers[&of];
                let mut order: Vec<usize> = (0..buffer.columns[0].len()).collect();
                if self.habit == Habit::Unstable {
                    order.reverse();
                }
                for column in buffer.columns[..keys as usize].iter().rev() {
                    order.sort_by_key(|&k| rank(buffer.scalar, column[k]));
                }
                let sorted = Device::take(buffer, &order);
                if self.habit == Habit::SortsInPlace {
                    self.buffers.insert(of, sorted.clone());
                }
                let left = if self.habit == Habit::Unsorted {
                    self.buffers[&of].clone()
                } else {
                    sorted
                };
                self.buffers.insert(into, left);
                Reply::Done
            }
            Request::Filter { of, mask, into } => {
                let buffer = &self.buffers[&of];
                let mask = machine.column(mask).unwrap();
                if mask.len() != buffer.columns[0].len() {
                    return Reply::Failed("mask length".to_string());
                }
                let all = self.habit == Habit::KeepsAll;
                let order: Vec<usize> =
                    (0..mask.len()).filter(|&k| all || mask[k] == 1).collect();
                let kept = Device::take(buffer, &order);
                self.buffers.insert(into, kept);
                Reply::Done
            }
            Request::Dedup { of, into } => {
                let buffer = &self.buffers[&of];
                let mut seen = std::collections::HashSet::new();
                let all = self.habit == Habit::KeepsDuplicates;
                let order: Vec<usize> = (0..buffer.columns[0].len())
                    .filter(|&k| seen.insert(buffer.columns[0][k]) || all)
                    .collect();
                let kept = Device::take(buffer, &order);
                self.buffers.insert(into, kept);
                Reply::Done
            }
            Request::Join { left, right, into } => {
                let a = &self.buffers[&left];
                let b = &self.buffers[&right];
                let mut index: HashMap<u64, Vec<usize>> = HashMap::new();
                for (k, &key) in b.columns[0].iter().enumerate() {
                    index.entry(key).or_default().push(k);
                }
                let mut columns: Vec<Vec<u64>> = vec![Vec::new(); 3];
                for (k, key) in a.columns[0].iter().enumerate() {
                    for &j in index.get(key).map(|v| v.as_slice()).unwrap_or(&[]) {
                        columns[0].push(*key);
                        columns[1].push(a.columns[1][k]);
                        columns[2].push(b.columns[1][j]);
                    }
                }
                if self.habit == Habit::LosesRow {
                    for column in &mut columns {
                        column.pop();
                    }
                }
                let scalar = a.scalar;
                self.buffers.insert(into, Buffer { scalar, columns });
                Reply::Done
            }
            Request::Rows { of, .. } | Request::RowsKnown { of, .. } => Reply::Count(self.rows(of)),
            Request::Download { of, column, .. } => {
                Reply::Words(self.buffers[&of].columns[column as usize].clone())
            }
            Request::Sync => Reply::Done,
            Request::PrefixSum { mask, .. } => {
                let mut sum = 0;
                let mut sums = Vec::new();
                for &m in machine.column(mask).unwrap() {
                    sums.push(sum);
                    sum += m;
                }
                Reply::Sums(sums, sum)
            }
            Request::Capability { .. } => Reply::Pair(8, 6),
            Request::Ordinal { .. } => Reply::Count(0),
            Request::Budget { .. } => Reply::Count(self.budget),
            Request::Used { .. } => Reply::Count(1000),
            Request::Several { .. } => Reply::Count((self.devices > 1) as u64),
            Request::Devices { .. } => Reply::Count(self.devices),
            Request::Alloc { count, into, .. } => {
                self.raw.insert(into, vec![0; count as usize]);
                Reply::Done
            }
            Request::Zeroed { count, into } => {
                self.raw.insert(into, vec![0; count as usize]);
                Reply::Done
            }
            Request::CopyIn { from, to } => {
                self.raw.insert(to, machine.column(from).unwrap().clone());
                Reply::Done
            }
            Request::CopyOut { of, .. } => Reply::Words(self.raw[&of].clone()),
            Request::Sample { from, samples, seed, .. } => {
                let vars = machine.column(from).unwrap().len() as u64;
                Reply::Words((0..vars * samples).map(|k| (k * seed / 7) % 2).collect())
            }
            Request::KernelKnown { .. } => Reply::Count(1),
            Request::Resolve { module, entry, .. } => {
                let module = machine.text(module).unwrap();
                let entry = machine.text(entry).unwrap();
                Reply::Count((module.starts_with("xlog_") && !entry.starts_with("lost")) as u64)
            }
            Request::Forward { .. } => Reply::Words(vec![0.5f64.to_bits(), (-0.0f64).to_bits()]),
            Request::Backward { .. } => {
                let words = vec![1.5f64.to_bits()];
                Reply::Four(words.clone(), words.clone(), words.clone(), words)
            }
            Request::Release { from } => {
                self.buffers.retain(|&slot, _| slot < from);
                self.raw.retain(|&slot, _| slot < from);
                Reply::Done
            }
            Request::Deadline { .. } => Reply::Done,
            Request::Clock { .. } => {
                if self.ticks == 0 {
                    self.ticks = 12;
                    Reply::Count(0)
                } else {
                    self.ticks -= 1;
                    Reply::Count(1)
                }
            }
            Request::Elapsed => Reply::Text("1.5s".to_string()),
        }
    }

    fn run(&mut self, script: Script) -> Verdict {
        let mut machine = Machine::start(script);
        while let Some(request) = machine.request() {
            let reply = self.perform(request, &machine);
            machine = machine.resume(reply);
        }
        machine.verdict().unwrap()
    }
}

fn passes(script: Script) {
    let name = script.name;
    let verdict = Device::new().run(script);
    assert_eq!(verdict, Verdict::Passed, "{}", name);
}

#[test]
fn c01_ptx_loads_successfully_passes() {
    passes(c01_toolchain::test_ptx_loads_successfully());
}

#[test]
fn c01_compute_capability_check_passes() {
    passes(c01_toolchain::test_compute_capability_check());
}

#[test]
fn c01_ptx_module_attributes_passes() {
    passes(c01_toolchain::test_ptx_module_attributes());
}

#[test]
fn c01_repeated_jit_compilation_passes() {
    passes(c01_toolchain::test_repeated_jit_compilation());
}

#[test]
fn c02_zero_elements_no_launch_passes() {
    passes(c02_launch_config::test_zero_elements_no_launch());
}

#[test]
fn c02_single_element_passes() {
    passes(c02_launch_config::test_single_element());
}

#[test]
fn c02_warp_boundary_sizes_passes() {
    passes(c02_launch_config::test_warp_boundary_sizes());
}

#[test]
fn c02_block_boundary_sizes_passes() {
    passes(c02_launch_config::test_block_boundary_sizes());
}

#[test]
fn c02_non_power_of_two_sizes_passes() {
    passes(c02_launch_config::test_non_power_of_two_sizes());
}

#[test]
fn c02_large_grid_sizes_passes() {
    passes(c02_launch_config::test_large_grid_sizes());
}

#[test]
fn c02_max_practical_size_passes() {
    passes(c02_launch_config::test_max_practical_size());
}

#[test]
fn c02_mc_sample_edge_sizes_passes() {
    passes(c02_launch_config::test_mc_sample_edge_sizes());
}

#[test]
fn c03_off_by_one_filter_passes() {
    passes(c03_pointer_bounds::test_off_by_one_filter());
}

#[test]
fn c03_off_by_one_sort_passes() {
    passes(c03_pointer_bounds::test_off_by_one_sort());
}

#[test]
fn c03_grid_stride_loop_passes() {
    passes(c03_pointer_bounds::test_grid_stride_loop());
}

#[test]
fn c03_tail_handling_filter_passes() {
    passes(c03_pointer_bounds::test_tail_handling_filter());
}

#[test]
fn c03_tail_handling_sort_passes() {
    passes(c03_pointer_bounds::test_tail_handling_sort());
}

#[test]
fn c03_boundary_indices_passes() {
    passes(c03_pointer_bounds::test_boundary_indices());
}

#[test]
fn c03_multi_column_strides_passes() {
    passes(c03_pointer_bounds::test_multi_column_strides());
}

#[test]
fn c04_global_u32_correctness_passes() {
    passes(c04_address_space::test_global_u32_correctness());
}

#[test]
fn c04_global_u64_correctness_passes() {
    passes(c04_address_space::test_global_u64_correctness());
}

#[test]
fn c04_global_i64_correctness_passes() {
    passes(c04_address_space::test_global_i64_correctness());
}

#[test]
fn c04_global_f64_correctness_passes() {
    passes(c04_address_space::test_global_f64_correctness());
}

#[test]
fn c04_multi_buffer_isolation_passes() {
    passes(c04_address_space::test_multi_buffer_isolation());
}

#[test]
fn c05_large_allocation_passes() {
    passes(c05_global_memory::test_large_allocation());
}

#[test]
fn c05_aligned_access_patterns_passes() {
    passes(c05_global_memory::test_aligned_access_patterns());
}

#[test]
fn c05_coalesced_access_passes() {
    passes(c05_global_memory::test_coalesced_access());
}

#[test]
fn c05_repeated_access_passes() {
    passes(c05_global_memory::test_repeated_access());
}

#[test]
fn c05_buffer_reuse_passes() {
    passes(c05_global_memory::test_buffer_reuse());
}

#[test]
fn c06_sort_uses_shared_memory_passes() {
    passes(c06_shared_memory::test_sort_uses_shared_memory());
}

#[test]
fn c06_sort_bank_conflicts_passes() {
    passes(c06_shared_memory::test_sort_bank_conflicts());
}

#[test]
fn c06_sort_multiple_passes_passes() {
    passes(c06_shared_memory::test_sort_multiple_passes());
}

#[test]
fn c06_block_boundary_shared_mem_passes() {
    passes(c06_shared_memory::test_block_boundary_shared_mem());
}

#[test]
fn c06_shared_mem_size_limits_passes() {
    passes(c06_shared_memory::test_shared_mem_size_limits());
}

#[test]
fn c07_deep_sort_keys_passes() {
    passes(c07_local_memory::test_deep_sort_keys());
}

#[test]
fn c07_repeated_operations_passes() {
    passes(c07_local_memory::test_repeated_operations());
}

#[test]
fn c07_variable_workload_passes() {
    passes(c07_local_memory::test_variable_workload());
}

#[test]
fn c07_complex_filter_chains_passes() {
    passes(c07_local_memory::test_complex_filter_chains());
}

#[test]
fn c07_local_memory_stress_passes() {
    passes(c07_local_memory::test_local_memory_stress());
}

#[test]
fn c08_hash_join_atomics_passes() {
    passes(c08_synchronization::test_hash_join_atomics());
}

#[test]
fn c08_filter_scan_sync_passes() {
    passes(c08_synchronization::test_filter_scan_sync());
}

#[test]
fn c08_sort_barrier_correctness_passes() {
    passes(c08_synchronization::test_sort_barrier_correctness());
}

#[test]
fn c08_dedup_atomic_marking_passes() {
    passes(c08_synchronization::test_dedup_atomic_marking());
}

#[test]
fn c08_concurrent_operations_passes() {
    passes(c08_synchronization::test_concurrent_operations());
}

#[test]
fn c09_warp_size_operations_passes() {
    passes(c09_warp_level::test_warp_size_operations());
}

#[test]
fn c09_partial_warp_correctness_passes() {
    passes(c09_warp_level::test_partial_warp_correctness());
}

#[test]
fn c09_warp_divergence_patterns_passes() {
    passes(c09_warp_level::test_warp_divergence_patterns());
}

#[test]
fn c09_warp_uniform_patterns_passes() {
    passes(c09_warp_level::test_warp_uniform_patterns());
}

#[test]
fn c09_multi_warp_coordination_passes() {
    passes(c09_warp_level::test_multi_warp_coordination());
}

#[test]
fn c10_single_block_operations_passes() {
    passes(c10_block_grid::test_single_block_operations());
}

#[test]
fn c10_multi_block_operations_passes() {
    passes(c10_block_grid::test_multi_block_operations());
}

#[test]
fn c10_block_boundary_correctness_passes() {
    passes(c10_block_grid::test_block_boundary_correctness());
}

#[test]
fn c10_grid_stride_correctness_passes() {
    passes(c10_block_grid::test_grid_stride_correctness());
}

#[test]
fn c10_cross_block_data_patterns_passes() {
    passes(c10_block_grid::test_cross_block_data_patterns());
}

#[test]
fn c11_filter_all_pass_passes() {
    passes(c11_control_flow::test_filter_all_pass());
}

#[test]
fn c11_filter_none_pass_passes() {
    passes(c11_control_flow::test_filter_none_pass());
}

#[test]
fn c11_filter_half_pass_passes() {
    passes(c11_control_flow::test_filter_half_pass());
}

#[test]
fn c11_sparse_predicate_passes() {
    passes(c11_control_flow::test_sparse_predicate());
}

#[test]
fn c11_dense_predicate_passes() {
    passes(c11_control_flow::test_dense_predicate());
}

#[test]
fn c11_alternating_predicate_passes() {
    passes(c11_control_flow::test_alternating_predicate());
}

#[test]
fn c11_random_predicate_distribution_passes() {
    passes(c11_control_flow::test_random_predicate_distribution());
}

#[test]
fn c12_hash_join_atomic_correctness_passes() {
    passes(c12_atomics::test_hash_join_atomic_correctness());
}

#[test]
fn c12_dedup_atomic_correctness_passes() {
    passes(c12_atomics::test_dedup_atomic_correctness());
}

#[test]
fn c12_high_contention_join_passes() {
    passes(c12_atomics::test_high_contention_join());
}

#[test]
fn c12_atomic_counting_passes() {
    passes(c12_atomics::test_atomic_counting());
}

#[test]
fn c12_concurrent_atomic_updates_passes() {
    passes(c12_atomics::test_concurrent_atomic_updates());
}

#[test]
fn c13_f64_infinity_passes() {
    passes(c13_floating_point::test_f64_infinity());
}

#[test]
fn c13_f64_nan_handling_passes() {
    passes(c13_floating_point::test_f64_nan_handling());
}

#[test]
fn c13_f64_zero_signs_passes() {
    passes(c13_floating_point::test_f64_zero_signs());
}

#[test]
fn c13_f64_subnormal_passes() {
    passes(c13_floating_point::test_f64_subnormal());
}

#[test]
fn c13_f64_precision_extremes_passes() {
    passes(c13_floating_point::test_f64_precision_extremes());
}

#[test]
fn c13_f64_sort_ordering_passes() {
    passes(c13_floating_point::test_f64_sort_ordering());
}

#[test]
fn c14_i64_overflow_boundaries_passes() {
    passes(c14_integer::test_i64_overflow_boundaries());
}

#[test]
fn c14_u64_overflow_boundaries_passes() {
    passes(c14_integer::test_u64_overflow_boundaries());
}

#[test]
fn c14_u32_full_range_passes() {
    passes(c14_integer::test_u32_full_range());
}

#[test]
fn c14_i64_signed_comparison_passes() {
    passes(c14_integer::test_i64_signed_comparison());
}

#[test]
fn c14_integer_wraparound_keys_passes() {
    passes(c14_integer::test_integer_wraparound_keys());
}

#[test]
fn c15_sort_reproducibility_passes() {
    passes(c15_determinism::test_sort_reproducibility());
}

#[test]
fn c15_filter_reproducibility_passes() {
    passes(c15_determinism::test_filter_reproducibility());
}

#[test]
fn c15_join_reproducibility_passes() {
    passes(c15_determinism::test_join_reproducibility());
}

#[test]
fn c15_dedup_reproducibility_passes() {
    passes(c15_determinism::test_dedup_reproducibility());
}

#[test]
fn c15_stable_sort_order_passes() {
    passes(c15_determinism::test_stable_sort_order());
}

#[test]
fn c15_mc_sample_reproducibility_passes() {
    passes(c15_determinism::test_mc_sample_reproducibility());
}

#[test]
fn c15_xgcf_forward_reproducibility_passes() {
    passes(c15_determinism::test_xgcf_forward_reproducibility());
}

#[test]
fn c15_xgcf_backward_reproducibility_passes() {
    passes(c15_determinism::test_xgcf_backward_reproducibility());
}

#[test]
fn c16_sequential_operations_passes() {
    passes(c16_async_pipeline::test_sequential_operations());
}

#[test]
fn c16_operation_dependencies_passes() {
    passes(c16_async_pipeline::test_operation_dependencies());
}

#[test]
fn c16_sync_between_operations_passes() {
    passes(c16_async_pipeline::test_sync_between_operations());
}

#[test]
fn c16_error_propagation_passes() {
    passes(c16_async_pipeline::test_error_propagation());
}

#[test]
fn c16_large_batch_operations_passes() {
    passes(c16_async_pipeline::test_large_batch_operations());
}

#[test]
fn c17_cache_line_access_passes() {
    passes(c17_caching::test_cache_line_access());
}

#[test]
fn c17_cache_reuse_passes() {
    passes(c17_caching::test_cache_reuse());
}

#[test]
fn c17_cache_thrashing_passes() {
    passes(c17_caching::test_cache_thrashing());
}

#[test]
fn c17_memory_locality_passes() {
    passes(c17_caching::test_memory_locality());
}

#[test]
fn c17_l2_cache_effects_passes() {
    passes(c17_caching::test_l2_cache_effects());
}

#[test]
fn c18_upload_download_integrity_passes() {
    passes(c18_host_device::test_upload_download_integrity());
}

#[test]
fn c18_large_transfer_passes() {
    passes(c18_host_device::test_large_transfer());
}

#[test]
fn c18_repeated_transfer_passes() {
    passes(c18_host_device::test_repeated_transfer());
}

#[test]
fn c18_memory_lifecycle_passes() {
    passes(c18_host_device::test_memory_lifecycle());
}

#[test]
fn c18_memory_budget_limits_passes() {
    passes(c18_host_device::test_memory_budget_limits());
}

#[test]
fn c19_sequential_batch_operations_passes() {
    passes(c19_multi_stream::test_sequential_batch_operations());
}

#[test]
fn c19_interleaved_operations_passes() {
    passes(c19_multi_stream::test_interleaved_operations());
}

#[test]
fn c19_operation_isolation_passes() {
    passes(c19_multi_stream::test_operation_isolation());
}

#[test]
fn c19_batch_completion_passes() {
    passes(c19_multi_stream::test_batch_completion());
}

#[test]
fn c19_dependency_chain_passes() {
    passes(c19_multi_stream::test_dependency_chain());
}

#[test]
fn c20_single_gpu_baseline_passes() {
    passes(c20_multi_gpu::test_single_gpu_baseline());
}

#[test]
fn c20_multi_gpu_detection_passes() {
    passes(c20_multi_gpu::test_multi_gpu_detection());
}

#[test]
fn c20_device_enumeration_passes() {
    passes(c20_multi_gpu::test_device_enumeration());
}

#[test]
fn c20_primary_device_operations_passes() {
    passes(c20_multi_gpu::test_primary_device_operations());
}

#[test]
fn c20_device_capability_query_passes() {
    passes(c20_multi_gpu::test_device_capability_query());
}

#[test]
fn c21_error_detection_passes() {
    passes(c21_hardware::test_error_detection());
}

#[test]
fn c21_recovery_after_error_passes() {
    passes(c21_hardware::test_recovery_after_error());
}

#[test]
fn c21_stress_operations_passes() {
    passes(c21_hardware::test_stress_operations());
}

#[test]
fn c21_memory_pressure_passes() {
    passes(c21_hardware::test_memory_pressure());
}

#[test]
fn c21_sustained_operation_passes() {
    passes(c21_hardware::test_sustained_operation());
}

fn file(name: &str, content: Result<&str, &str>) -> PtxFile {
    PtxFile {
        filename: format!("{}.ptx", name),
        stem: name.to_string(),
        path: format!("kernels/{}.ptx", name),
        content: content.map(|text| text.to_string()).map_err(|reason| reason.to_string()),
    }
}

/// The text of a failure.
fn failure(verdict: Verdict) -> String {
    match verdict {
        Verdict::Failed(message) => {
            let doubles = message
                .doubles()
                .into_iter()
                .map(|(word, exponent)| {
                    let value = f64::from_bits(word);
                    if exponent {
                        format!("{:e}", value)
                    } else {
                        format!("{}", value)
                    }
                })
                .collect();
            message.render(&doubles)
        }
        other => panic!("{:?}", other),
    }
}

/// The text of the failure where one request is refused.
fn refused(script: Script, number: usize) -> String {
    let mut device = Device::new();
    device.refuse = Some(number);
    failure(device.run(script))
}

/// The text of the failure where one answer is spoiled.
fn spoiled(script: Script, number: usize) -> String {
    let mut device = Device::new();
    device.spoil = Some(number);
    failure(device.run(script))
}

/// Whether the device can refuse a request.
fn refusable(request: Request) -> bool {
    !matches!(
        request,
        Request::Rows { .. }
            | Request::RowsKnown { .. }
            | Request::Ordinal { .. }
            | Request::Budget { .. }
            | Request::Used { .. }
            | Request::Several { .. }
            | Request::Zeroed { .. }
            | Request::KernelKnown { .. }
            | Request::Resolve { .. }
            | Request::Release { .. }
            | Request::Deadline { .. }
            | Request::Clock { .. }
            | Request::Elapsed
    )
}

/// Refuses every request in turn: each time the test fails with the reason of the device.
fn every_refusal_fails(make: fn() -> Script) {
    let mut device = Device::new();
    assert_eq!(device.run(make()), Verdict::Passed);
    for (number, &request) in device.log.iter().enumerate() {
        if refusable(request) {
            let text = refused(make(), number);
            assert!(text.ends_with("refused"), "{}: {}", number, text);
        }
    }
}

#[test]
fn refused_requests_fail_small_tests() {
    every_refusal_fails(c02_launch_config::test_zero_elements_no_launch);
    every_refusal_fails(c02_launch_config::test_single_element);
    every_refusal_fails(c02_launch_config::test_warp_boundary_sizes);
    every_refusal_fails(c04_address_space::test_global_u64_correctness);
    every_refusal_fails(c04_address_space::test_multi_buffer_isolation);
    every_refusal_fails(c09_warp_level::test_partial_warp_correctness);
    every_refusal_fails(c13_floating_point::test_f64_nan_handling);
    every_refusal_fails(c14_integer::test_integer_wraparound_keys);
}

#[test]
fn refusals_name_the_operation() {
    assert_eq!(
        refused(c02_launch_config::test_warp_boundary_sizes(), 0),
        "Failed to create buffer of size 31: refused"
    );
    assert_eq!(
        refused(c02_launch_config::test_warp_boundary_sizes(), 1),
        "Sort failed for size 31: refused"
    );
    assert_eq!(
        refused(c02_launch_config::test_warp_boundary_sizes(), 5),
        "Failed to create buffer of size 32: refused"
    );
    assert_eq!(
        refused(c02_launch_config::test_warp_boundary_sizes(), 60),
        "Sync failed: refused"
    );
}

#[test]
fn wrong_count_is_read_again_for_the_message() {
    let mut device = Device::new();
    device.spoil = Some(2);
    let verdict = device.run(c02_launch_config::test_warp_boundary_sizes());
    assert_eq!(failure(verdict), "Size 31: sort returned 31 rows, expected 31");
    assert_eq!(device.log.len(), 4);
    assert_eq!(device.log[2], device.log[3]);
}

#[test]
fn wrong_word_is_reported_with_its_place() {
    assert_eq!(
        spoiled(c02_launch_config::test_warp_boundary_sizes(), 3),
        "Size 31: sorted[0] = 31, expected 0"
    );
    assert_eq!(
        spoiled(c02_launch_config::test_block_boundary_sizes(), 8),
        "Size 256: sorted[0] = 256, expected 0"
    );
    assert_eq!(
        spoiled(c02_launch_config::test_non_power_of_two_sizes(), 3),
        "Size 7: sorted[0] = 7, expected 0"
    );
    assert_eq!(
        spoiled(c02_launch_config::test_single_element(), 4),
        "Sort of single element returned [43], expected [42]"
    );
}

#[test]
fn edge_sizes_are_filtered() {
    let sizes = vec![0, 1, 2, 3, 7, 15, 16, 17, 65537];
    passes(c03_pointer_bounds::test_edge_case_sizes(&sizes));
    assert_eq!(
        refused(c03_pointer_bounds::test_edge_case_sizes(&sizes), 0),
        "Failed to create buffer of size 1: refused"
    );
}

#[test]
fn devices_are_counted() {
    let mut device = Device::new();
    device.devices = 0;
    assert_eq!(
        device.run(c20_multi_gpu::test_device_enumeration()),
        Verdict::Skipped("No CUDA devices available")
    );
    let mut device = Device::new();
    device.devices = 16;
    assert_eq!(device.run(c20_multi_gpu::test_device_enumeration()), Verdict::Passed);
    let mut device = Device::new();
    device.devices = 17;
    assert_eq!(
        failure(device.run(c20_multi_gpu::test_device_enumeration())),
        "Suspicious device count: 17 (>16)"
    );
    assert_eq!(
        refused(c20_multi_gpu::test_device_enumeration(), 0),
        "Failed to get device count: refused"
    );
    assert_eq!(
        spoiled(c20_multi_gpu::test_device_enumeration(), 0),
        "Device count changed between calls: 2 vs 1"
    );
}

#[test]
fn detection_is_for_information_only() {
    for devices in 0..4 {
        let mut device = Device::new();
        device.devices = devices;
        assert_eq!(device.run(c20_multi_gpu::test_multi_gpu_detection()), Verdict::Passed);
    }
    // A flag or a count that disagrees with the other one does not end the test.
    for number in [0, 1] {
        let mut device = Device::new();
        device.spoil = Some(number);
        assert_eq!(device.run(c20_multi_gpu::test_multi_gpu_detection()), Verdict::Passed);
    }
    // A count that cannot be had is no device at all.
    let mut device = Device::new();
    device.refuse = Some(1);
    assert_eq!(device.run(c20_multi_gpu::test_multi_gpu_detection()), Verdict::Passed);
    assert_eq!(
        refused(c20_multi_gpu::test_multi_gpu_detection(), 3),
        "Sort failed after detection: refused"
    );
}

#[test]
fn unstable_sorts_are_noticed() {
    let mut device = Device::new();
    device.habit = Habit::Unstable;
    assert_eq!(
        failure(device.run(c15_determinism::test_stable_sort_order())),
        "Sort is not stable at index 1: key 0 has val 8 after 9"
    );
}

#[test]
fn later_failures_are_reported_alike_after_a_refusal() {
    let mut device = Device::new();
    assert_eq!(device.run(c21_hardware::test_recovery_after_error()), Verdict::Passed);
    let filter = device.log.iter().position(|r| matches!(r, Request::Filter { .. })).unwrap();
    let words = device
        .log
        .iter()
        .position(|r| matches!(r, Request::Download { .. }))
        .unwrap();
    let text = |refuse: Option<usize>| {
        let mut device = Device::new();
        device.refuse = refuse;
        device.spoil = Some(words);
        failure(device.run(c21_hardware::test_recovery_after_error()))
    };
    assert_eq!(text(None), "Recovery result incorrect at 0: expected 0, got 10000");
    assert_eq!(text(Some(filter)), text(None));
    assert_eq!(text(Some(filter + 1)), text(None));
}

#[test]
fn kernels_lie_beside_the_package() {
    assert_eq!(c01_toolchain::kernels_dir("/x/crates/y"), "/x/crates/y/../../kernels");
    assert_eq!(c01_toolchain::kernels_dir("/x/crates/y/"), "/x/crates/y/../../kernels");
    assert_eq!(c01_toolchain::kernels_dir(""), "../../kernels");
}

#[test]
fn recovery_goes_on_after_a_refusal() {
    let mut device = Device::new();
    assert_eq!(device.run(c21_hardware::test_recovery_after_error()), Verdict::Passed);
    let filter = device.log.iter().position(|r| matches!(r, Request::Filter { .. })).unwrap();
    for number in [filter, filter + 1] {
        let mut device = Device::new();
        device.refuse = Some(number);
        assert_eq!(device.run(c21_hardware::test_recovery_after_error()), Verdict::Passed);
    }
    assert_eq!(
        refused(c21_hardware::test_recovery_after_error(), filter + 2),
        "Recovery buffer creation failed: refused"
    );
}

#[test]
fn pressure_needs_a_budget() {
    let mut device = Device::new();
    device.budget = 79_999;
    assert_eq!(
        device.run(c21_hardware::test_memory_pressure()),
        Verdict::Skipped("Memory budget too small for pressure test")
    );
    let mut device = Device::new();
    device.budget = 80_000;
    assert_eq!(device.run(c21_hardware::test_memory_pressure()), Verdict::Passed);
}

#[test]
fn pressure_stops_allocating_at_a_refusal() {
    // The third allocation is refused: two buffers are sorted and filtered.
    let mut device = Device::new();
    device.refuse = Some(3);
    assert_eq!(device.run(c21_hardware::test_memory_pressure()), Verdict::Passed);
    let count = |kind: fn(&Request) -> bool| device.log.iter().filter(|r| kind(r)).count();
    assert_eq!(count(|r| matches!(r, Request::Filter { .. })), 2);
    assert_eq!(count(|r| matches!(r, Request::Sort { .. })), 3);
    // The first one is refused: nothing can be tested.
    assert_eq!(
        refused(c21_hardware::test_memory_pressure(), 1),
        "Could not allocate any buffers"
    );
}

#[test]
fn sustained_operation_counts_refused_sorts() {
    let mut device = Device::new();
    assert_eq!(device.run(c21_hardware::test_sustained_operation()), Verdict::Passed);
    let sort = device.log.iter().position(|r| matches!(r, Request::Sort { .. })).unwrap();
    // One refusal in about a dozen sorts is more than one in a hundred.
    let text = refused(c21_hardware::test_sustained_operation(), sort);
    assert!(text.contains("error"), "{}", text);
}

#[test]
fn sustained_operation_looks_at_filters_and_joins() {
    let text = |habit: Habit| {
        let mut device = Device::new();
        device.habit = habit;
        failure(device.run(c21_hardware::test_sustained_operation()))
    };
    assert_eq!(
        text(Habit::KeepsAll),
        "Sustained filter 0: got 50000 rows, expected ~5000"
    );
    assert_eq!(text(Habit::LosesRow), "Sustained join 0: expected 500 rows, got 499");
    // The last request of the test.
    let mut device = Device::new();
    assert_eq!(device.run(c21_hardware::test_sustained_operation()), Verdict::Passed);
    assert_eq!(
        refused(c21_hardware::test_sustained_operation(), device.log.len() - 1),
        "Final sustained sync failed: refused"
    );
}

#[test]
fn capability_has_to_reach_seven() {
    let mut machine = Machine::start(c01_toolchain::test_compute_capability_check());
    machine = machine.resume(Reply::Pair(6, 1));
    assert_eq!(
        failure(machine.verdict().unwrap()),
        "Compute capability 6.1 does not meet minimum sm_70 requirement"
    );
    let mut machine = Machine::start(c01_toolchain::test_compute_capability_check());
    machine = machine.resume(Reply::Pair(7, 0));
    assert_eq!(machine.request(), Some(Request::Sync));
    machine = machine.resume(Reply::Done);
    assert_eq!(machine.verdict(), Some(Verdict::Passed));
}

const KERNELS: &str = ".version 7.0\n.target sm_70\n.address_size 64\n\
    .visible .entry sort_keys(\n)\n.entry count_rows(\n)\n";

fn resolution(listing: Result<Vec<PtxFile>, String>) -> Script {
    c01_toolchain::test_kernel_function_resolution("kernels".to_string(), listing)
}

#[test]
fn entry_points_are_resolved_in_their_modules() {
    let files = vec![file("join", Ok(KERNELS)), file("sort", Ok(KERNELS))];
    let mut device = Device::new();
    assert_eq!(device.run(resolution(Ok(files))), Verdict::Passed);
    assert_eq!(device.log.len(), 5);
    let mut machine = Machine::start(resolution(Ok(vec![file("join", Ok(KERNELS))])));
    match machine.request() {
        Some(Request::Resolve { module, entry, .. }) => {
            assert_eq!(machine.text(module).unwrap(), "xlog_join");
            assert_eq!(machine.text(entry).unwrap(), "sort_keys");
        }
        other => panic!("{:?}", other),
    }
    machine = machine.resume(Reply::Count(1));
    match machine.request() {
        Some(Request::Resolve { entry, .. }) => {
            assert_eq!(machine.text(entry).unwrap(), "count_rows");
        }
        other => panic!("{:?}", other),
    }
    machine = machine.resume(Reply::Count(0));
    assert_eq!(
        failure(machine.verdict().unwrap()),
        "join.ptx: failed to resolve kernel function 'count_rows' from module 'xlog_join'"
    );
}

#[test]
fn flawed_files_are_named() {
    let text = |content: Result<&str, &str>| {
        failure(Device::new().run(resolution(Ok(vec![file("scan", content)]))))
    };
    assert_eq!(text(Err("gone")), "Failed to read kernels/scan.ptx: gone");
    assert_eq!(text(Ok("")), "scan.ptx: expected .address_size 64, got ''");
    assert_eq!(
        text(Ok(".address_size 32\n")),
        "scan.ptx: expected .address_size 64, got '32'"
    );
    assert_eq!(
        text(Ok(".address_size 64\n.target sm_61\n")),
        "scan.ptx: expected .target sm_70 or later, got 'sm_61'"
    );
    assert_eq!(
        text(Ok(".address_size 64\n.target sm_80\n")),
        "scan.ptx: no .entry kernels found"
    );
    assert_eq!(
        text(Ok(".address_size 64\n.target sm_80\n.entry a(\n.entry a(\n")),
        "scan.ptx: duplicate .entry name a"
    );
    assert_eq!(
        failure(Device::new().run(resolution(Ok(vec![file("", Ok(KERNELS))])))),
        "Invalid PTX filename stem: .ptx"
    );
    assert_eq!(
        failure(Device::new().run(resolution(Ok(Vec::new())))),
        "No PTX files found under kernels"
    );
    assert_eq!(
        failure(Device::new().run(resolution(Err("denied".to_string())))),
        "Failed to read kernels dir kernels: denied"
    );
}

#[test]
fn files_before_a_flawed_one_are_resolved_first() {
    let files = vec![file("join", Ok(KERNELS)), file("scan", Err("gone"))];
    let mut device = Device::new();
    assert_eq!(
        failure(device.run(resolution(Ok(files)))),
        "Failed to read kernels/scan.ptx: gone"
    );
    assert_eq!(device.log.len(), 2);
}

#[test]
fn unequal_runs_are_not_reproducible() {
    let mut device = Device::new();
    assert_eq!(device.run(c15_determinism::test_sort_reproducibility()), Verdict::Passed);
    let downloads: Vec<usize> = (0..device.log.len())
        .filter(|&k| matches!(device.log[k], Request::Download { .. }))
        .collect();
    let text = spoiled(c15_determinism::test_sort_reproducibility(), downloads[1]);
    assert!(text.contains("differ") || text.contains("mismatch"), "{}", text);
}

/// Each of the scripts fails on a device with a habit.
fn noticed(habit: Habit, scripts: &[fn() -> Script]) {
    for make in scripts {
        let script = make();
        let name = script.name;
        let mut device = Device::new();
        device.habit = habit;
        let verdict = device.run(script);
        assert!(matches!(verdict, Verdict::Failed(_)), "{}", name);
    }
}

#[test]
fn missing_sorts_are_noticed() {
    let scripts: Vec<fn() -> Script> = vec![
        c02_launch_config::test_warp_boundary_sizes,
        c02_launch_config::test_large_grid_sizes,
        c03_pointer_bounds::test_off_by_one_sort,
        c03_pointer_bounds::test_tail_handling_sort,
        c04_address_space::test_global_u32_correctness,
        c04_address_space::test_global_i64_correctness,
        c04_address_space::test_global_f64_correctness,
        c05_global_memory::test_coalesced_access,
        c05_global_memory::test_repeated_access,
        c06_shared_memory::test_sort_uses_shared_memory,
        c06_shared_memory::test_sort_bank_conflicts,
        c07_local_memory::test_variable_workload,
        c08_synchronization::test_sort_barrier_correctness,
        c08_synchronization::test_concurrent_operations,
        c09_warp_level::test_warp_divergence_patterns,
        c09_warp_level::test_partial_warp_correctness,
        c10_block_grid::test_single_block_operations,
        c10_block_grid::test_cross_block_data_patterns,
        c13_floating_point::test_f64_sort_ordering,
        c14_integer::test_i64_signed_comparison,
        c15_determinism::test_sort_reproducibility,
        c16_async_pipeline::test_operation_dependencies,
        c17_caching::test_cache_line_access,
        c17_caching::test_memory_locality,
        c18_host_device::test_upload_download_integrity,
        c19_multi_stream::test_sequential_batch_operations,
        c19_multi_stream::test_dependency_chain,
        c20_multi_gpu::test_single_gpu_baseline,
        c20_multi_gpu::test_primary_device_operations,
        c21_hardware::test_sustained_operation,
    ];
    noticed(Habit::Unsorted, &scripts);
}

#[test]
fn missing_filters_are_noticed() {
    let scripts: Vec<fn() -> Script> = vec![
        c02_launch_config::test_single_element,
        c03_pointer_bounds::test_off_by_one_filter,
        c03_pointer_bounds::test_boundary_indices,
        c04_address_space::test_multi_buffer_isolation,
        c05_global_memory::test_buffer_reuse,
        c05_global_memory::test_repeated_access,
        c07_local_memory::test_complex_filter_chains,
        c07_local_memory::test_repeated_operations,
        c08_synchronization::test_filter_scan_sync,
        c08_synchronization::test_concurrent_operations,
        c09_warp_level::test_multi_warp_coordination,
        c10_block_grid::test_block_boundary_correctness,
        c11_control_flow::test_filter_none_pass,
        c11_control_flow::test_filter_half_pass,
        c11_control_flow::test_sparse_predicate,
        c11_control_flow::test_dense_predicate,
        c11_control_flow::test_alternating_predicate,
        c11_control_flow::test_random_predicate_distribution,
        c12_atomics::test_atomic_counting,
        c14_integer::test_u32_full_range,
        c15_determinism::test_filter_reproducibility,
        c16_async_pipeline::test_error_propagation,
        c16_async_pipeline::test_sequential_operations,
        c16_async_pipeline::test_sync_between_operations,
        c17_caching::test_memory_locality,
        c18_host_device::test_repeated_transfer,
        c19_multi_stream::test_operation_isolation,
        c20_multi_gpu::test_single_gpu_baseline,
    ];
    noticed(Habit::KeepsAll, &scripts);
}

#[test]
fn left_duplicates_are_noticed() {
    let scripts: Vec<fn() -> Script> = vec![
        c08_synchronization::test_dedup_atomic_marking,
        c09_warp_level::test_warp_uniform_patterns,
        c12_atomics::test_dedup_atomic_correctness,
        c15_determinism::test_dedup_reproducibility,
        c16_async_pipeline::test_large_batch_operations,
        c20_multi_gpu::test_single_gpu_baseline,
    ];
    noticed(Habit::KeepsDuplicates, &scripts);
}

#[test]
fn lost_rows_are_noticed() {
    let scripts: Vec<fn() -> Script> = vec![
        c08_synchronization::test_hash_join_atomics,
        c10_block_grid::test_cross_block_data_patterns,
        c12_atomics::test_hash_join_atomic_correctness,
        c12_atomics::test_high_contention_join,
        c12_atomics::test_concurrent_atomic_updates,
        c14_integer::test_integer_wraparound_keys,
        c16_async_pipeline::test_large_batch_operations,
        c20_multi_gpu::test_single_gpu_baseline,
    ];
    noticed(Habit::LosesRow, &scripts);
}

#[test]
fn changed_sources_are_noticed() {
    let scripts: Vec<fn() -> Script> = vec![
        c08_synchronization::test_concurrent_operations,
    ];
    noticed(Habit::SortsInPlace, &scripts);
}

#[test]
fn garbled_columns_are_noticed() {
    let scripts: Vec<fn() -> Script> = vec![
        c02_launch_config::test_single_element,
        c05_global_memory::test_buffer_reuse,
        c05_global_memory::test_aligned_access_patterns,
        c11_control_flow::test_filter_all_pass,
        c18_host_device::test_upload_download_integrity,
        c19_multi_stream::test_sequential_batch_operations,
        c21_hardware::test_error_detection,
        c21_hardware::test_recovery_after_error,
    ];
    noticed(Habit::Garbles, &scripts);
}
