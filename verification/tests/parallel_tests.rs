use mica::backend::parallel::{assemble_metrics, module_label, ModuleRecord, ParallelCompileMetrics};
use mica::ir::{EffectTable, Module, TypeTable};

fn ir_module(name: &[&str]) -> Module {
    Module {
        name: name.iter().map(|s| s.to_string()).collect(),
        functions: vec![],
        types: TypeTable::new(),
        effects: EffectTable::new(),
    }
}

fn record(worker_index: usize, duration: u128, start_offset: u128) -> ModuleRecord {
    ModuleRecord { worker_index, duration, start_offset }
}

#[test]
fn assembled_metrics_report_every_module_and_worker() {
    let modules: Vec<Module> = ["alpha", "beta", "gamma", "delta"]
        .iter()
        .map(|n| ir_module(&["parallel", n]))
        .collect();
    let records = vec![record(0, 5, 0), record(1, 7, 1), record(0, 3, 5), record(1, 2, 8)];
    let metrics = assemble_metrics(&modules, &records, 2, 12);

    assert_eq!(metrics.total_duration, 12);
    assert_eq!(metrics.worker_count, 2);
    assert_eq!(metrics.scheduled_modules, 4);
    let labels: Vec<&str> = metrics.modules.iter().map(|m| m.module.as_str()).collect();
    assert_eq!(labels, vec!["parallel::alpha", "parallel::beta", "parallel::gamma", "parallel::delta"]);
    assert_eq!(metrics.modules[2].duration, 3);
    assert_eq!(metrics.modules[2].worker_index, 0);
    assert_eq!(metrics.modules[3].start_offset, 8);

    assert_eq!(metrics.worker_metrics.len(), metrics.worker_count);
    let processed: usize = metrics.worker_metrics.iter().map(|w| w.processed_modules).sum();
    assert_eq!(processed, modules.len());
    assert_eq!(metrics.worker_metrics[0].worker_index, 0);
    assert_eq!(metrics.worker_metrics[0].processed_modules, 2);
    assert_eq!(metrics.worker_metrics[0].busy_duration, 8);
    assert_eq!(metrics.worker_metrics[1].processed_modules, 2);
    assert_eq!(metrics.worker_metrics[1].busy_duration, 9);

    assert!(metrics.schedule.windows(2).all(|pair| pair[0].start_offset <= pair[1].start_offset));
    for entry in &metrics.schedule {
        assert!(entry.worker_index < metrics.worker_count);
    }
    let order: Vec<&str> = metrics.schedule.iter().map(|e| e.module.as_str()).collect();
    assert_eq!(order, vec!["parallel::alpha", "parallel::beta", "parallel::gamma", "parallel::delta"]);
}

#[test]
fn schedule_is_sorted_by_dispatch_time() {
    let modules: Vec<Module> = (0..3).map(|i| ir_module(&["m", &format!("p{i}")])).collect();
    let records = vec![record(0, 1, 30), record(1, 1, 10), record(2, 1, 20)];
    let metrics = assemble_metrics(&modules, &records, 3, 40);
    let order: Vec<(&str, u128)> = metrics.schedule.iter().map(|e| (e.module.as_str(), e.start_offset)).collect();
    assert_eq!(order, vec![("m::p1", 10), ("m::p2", 20), ("m::p0", 30)]);
    assert_eq!(metrics.modules[0].module, "m::p0");
}

#[test]
fn root_module_label_and_empty_metrics() {
    assert_eq!(module_label(&vec![]), "<root>");
    assert_eq!(module_label(&vec!["a".to_string(), "b".to_string()]), "a::b");
    let empty = ParallelCompileMetrics::empty();
    assert_eq!(empty.worker_count, 0);
    assert!(empty.schedule.is_empty());
    let none = assemble_metrics(&vec![], &vec![], 1, 0);
    assert_eq!(none.worker_metrics.len(), 1);
    assert_eq!(none.worker_metrics[0].processed_modules, 0);
    assert!(none.modules.is_empty());
}
