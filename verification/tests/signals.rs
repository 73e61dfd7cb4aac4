use quick::signals::{IdAllocator, NodeId, ReactiveGraph};
use std::cell::RefCell;
use std::collections::HashMap;
use std::rc::Rc;

// A small signal runtime over the library's `ReactiveGraph`: the graph decides
// which effects run; this harness owns the values and the effect closures.
struct Inner {
    ids: IdAllocator,
    graph: ReactiveGraph,
    effects: HashMap<NodeId, Rc<dyn Fn()>>,
}

#[derive(Clone)]
struct Runtime(Rc<RefCell<Inner>>);

struct Signal<T> {
    id: NodeId,
    value: Rc<RefCell<T>>,
    rt: Runtime,
}

impl<T> Clone for Signal<T> {
    fn clone(&self) -> Self {
        Signal { id: self.id, value: self.value.clone(), rt: self.rt.clone() }
    }
}

impl<T: Clone + 'static> Signal<T> {
    fn id(&self) -> NodeId {
        self.id
    }

    fn get(&self) -> T {
        self.rt.0.borrow_mut().graph.track(self.id);
        self.value.borrow().clone()
    }

    fn with<R, F: FnOnce(&T) -> R>(&self, f: F) -> R {
        self.rt.0.borrow_mut().graph.track(self.id);
        f(&self.value.borrow())
    }

    fn get_untracked(&self) -> T {
        self.value.borrow().clone()
    }

    fn set(&self, new_val: T) {
        *self.value.borrow_mut() = new_val;
        let to_run = self.rt.0.borrow_mut().graph.notify(self.id);
        self.rt.run_effects(to_run);
    }

    fn update<F: FnOnce(&mut T)>(&self, f: F) {
        f(&mut self.value.borrow_mut());
        let to_run = self.rt.0.borrow_mut().graph.notify(self.id);
        self.rt.run_effects(to_run);
    }
}

impl Runtime {
    fn new() -> Runtime {
        Runtime(Rc::new(RefCell::new(Inner { ids: IdAllocator::new(), graph: ReactiveGraph::new(), effects: HashMap::new() })))
    }

    fn signal<T: Clone + 'static>(&self, initial: T) -> Signal<T> {
        let id = NodeId::next(&mut self.0.borrow_mut().ids);
        Signal { id, value: Rc::new(RefCell::new(initial)), rt: self.clone() }
    }

    fn create_signal<T: Clone + 'static>(&self, initial: T) -> (Signal<T>, Signal<T>) {
        let sig = self.signal(initial);
        (sig.clone(), sig)
    }

    fn run_effect(&self, id: NodeId) {
        let effect = self.0.borrow().effects.get(&id).cloned();
        if let Some(effect) = effect {
            let prev = self.0.borrow_mut().graph.swap_observer(Some(id));
            effect();
            self.0.borrow_mut().graph.swap_observer(prev);
        }
    }

    fn run_effects(&self, ids: Vec<NodeId>) {
        for id in ids {
            let active = self.0.borrow().graph.is_active(id);
            if active {
                self.run_effect(id);
            }
        }
    }

    fn create_effect<F: Fn() + 'static>(&self, f: F) -> NodeId {
        let id = {
            let mut inner = self.0.borrow_mut();
            let id = NodeId::next(&mut inner.ids);
            inner.graph.register_effect(id);
            inner.effects.insert(id, Rc::new(f));
            id
        };
        self.run_effect(id);
        id
    }

    fn dispose_effect(&self, id: NodeId) {
        let mut inner = self.0.borrow_mut();
        inner.graph.dispose_effect(id);
        inner.effects.remove(&id);
    }

    fn create_computed<T: Clone + 'static, F: Fn() -> T + 'static>(&self, calc: F) -> Signal<T> {
        let calc = Rc::new(calc);
        let initial = calc();
        let signal = self.signal(initial);
        let sig_clone = signal.clone();
        self.create_effect(move || {
            let new_val = calc();
            sig_clone.set(new_val);
        });
        signal
    }

    fn batch<R, F: FnOnce() -> R>(&self, f: F) -> R {
        self.0.borrow_mut().graph.begin_batch();
        let res = f();
        let to_run = self.0.borrow_mut().graph.end_batch();
        self.run_effects(to_run);
        res
    }
}

#[test]
fn test_signal_basic() {
    let rt = Runtime::new();
    let count = rt.signal(0);
    assert_eq!(count.get(), 0);
    count.set(5);
    assert_eq!(count.get(), 5);
    count.update(|v| *v += 10);
    assert_eq!(count.get(), 15);
}

#[test]
fn test_signal_with_borrow() {
    let rt = Runtime::new();
    let text = rt.signal("Hello Quick".to_string());
    let len = text.with(|s| s.len());
    assert_eq!(len, 11);
}

#[test]
fn test_create_signal_helper() {
    let rt = Runtime::new();
    let (getter, setter) = rt.create_signal(42);
    assert_eq!(getter.get(), 42);
    setter.set(100);
    assert_eq!(getter.get(), 100);
}

#[test]
fn test_computed_signal() {
    let rt = Runtime::new();
    let a = rt.signal(2);
    let b = rt.signal(3);
    let a_cl = a.clone();
    let b_cl = b.clone();
    let sum = rt.create_computed(move || a_cl.get() + b_cl.get());

    assert_eq!(sum.get(), 5);
    a.set(10);
    assert_eq!(sum.get(), 13);
    b.set(20);
    assert_eq!(sum.get(), 30);
}

#[test]
fn test_signal_batching() {
    let rt = Runtime::new();
    let a = rt.signal(1);
    let b = rt.signal(10);
    let run_count = Rc::new(RefCell::new(0));

    let a_cl = a.clone();
    let b_cl = b.clone();
    let rc_cl = run_count.clone();

    rt.create_effect(move || {
        let _ = a_cl.get() + b_cl.get();
        *rc_cl.borrow_mut() += 1;
    });

    assert_eq!(*run_count.borrow(), 1);

    rt.batch(|| {
        a.set(2);
        b.set(20);
    });

    assert_eq!(*run_count.borrow(), 2);
}

#[test]
fn test_nested_signal_batching() {
    let rt = Runtime::new();
    let a = rt.signal(1);
    let b = rt.signal(10);
    let c = rt.signal(100);
    let run_count = Rc::new(RefCell::new(0));

    let a_cl = a.clone();
    let b_cl = b.clone();
    let c_cl = c.clone();
    let rc_cl = run_count.clone();

    rt.create_effect(move || {
        let _ = a_cl.get() + b_cl.get() + c_cl.get();
        *rc_cl.borrow_mut() += 1;
    });

    assert_eq!(*run_count.borrow(), 1);

    rt.batch(|| {
        a.set(2);
        rt.batch(|| {
            b.set(20);
            c.set(200);
        });
        a.set(3);
    });

    assert_eq!(*run_count.borrow(), 2);
}

#[test]
fn test_signal_untracked() {
    let rt = Runtime::new();
    let a = rt.signal(5);
    assert_eq!(a.get_untracked(), 5);
    a.set(15);
    assert_eq!(a.get_untracked(), 15);
}

#[test]
fn test_chained_computed_signals() {
    let rt = Runtime::new();
    let root = rt.signal(1);
    let r1 = root.clone();
    let s2 = rt.create_computed(move || r1.get() * 2);
    let s2_cl = s2.clone();
    let s3 = rt.create_computed(move || s2_cl.get() + 10);
    let s3_cl = s3.clone();
    let s4 = rt.create_computed(move || format!("Value: {}", s3_cl.get()));

    assert_eq!(s4.get(), "Value: 12");
    root.set(5);
    assert_eq!(s4.get(), "Value: 20");
}

#[test]
fn test_dispose_effect() {
    let rt = Runtime::new();
    let count = rt.signal(1);
    let run_count = Rc::new(RefCell::new(0));

    let c_cl = count.clone();
    let rc_cl = run_count.clone();
    let effect_id = rt.create_effect(move || {
        let _ = c_cl.get();
        *rc_cl.borrow_mut() += 1;
    });

    assert_eq!(*run_count.borrow(), 1);

    count.set(2);
    assert_eq!(*run_count.borrow(), 2);

    rt.dispose_effect(effect_id);

    count.set(3);
    assert_eq!(*run_count.borrow(), 2);
}

#[test]
fn test_diamond_computed_signals() {
    let rt = Runtime::new();
    let a = rt.signal(1);
    let a1 = a.clone();
    let a2 = a.clone();

    let b = rt.create_computed(move || a1.get() * 2);
    let c = rt.create_computed(move || a2.get() + 10);

    let b_cl = b.clone();
    let c_cl = c.clone();
    let d = rt.create_computed(move || b_cl.get() + c_cl.get());

    assert_eq!(d.get(), 13);

    a.set(5);
    assert_eq!(d.get(), 25);
}

#[test]
fn test_cascading_effect_disposal() {
    let rt = Runtime::new();
    let trigger = rt.signal(0);
    let b_ran = Rc::new(RefCell::new(0));

    let b_id_holder: Rc<RefCell<Option<NodeId>>> = Rc::new(RefCell::new(None));
    let b_id_for_a = b_id_holder.clone();

    let trig_a = trigger.clone();
    let rt_a = rt.clone();
    rt.create_effect(move || {
        let val = trig_a.get();
        if val > 0 {
            if let Some(b_id) = *b_id_for_a.borrow() {
                rt_a.dispose_effect(b_id);
            }
        }
    });

    let trig_b = trigger.clone();
    let b_ran_cl = b_ran.clone();
    let b_id = rt.create_effect(move || {
        let _ = trig_b.get();
        *b_ran_cl.borrow_mut() += 1;
    });
    *b_id_holder.borrow_mut() = Some(b_id);

    let initial_runs = *b_ran.borrow();
    assert_eq!(initial_runs, 1);

    trigger.set(1);
    let runs_after_set1 = *b_ran.borrow();

    trigger.set(2);
    assert_eq!(*b_ran.borrow(), runs_after_set1);
}

#[test]
fn test_deep_chained_computed_stress() {
    let rt = Runtime::new();
    let root = rt.signal(1);
    let mut prev = root.clone();

    for _ in 0..50 {
        let p_cl = prev.clone();
        prev = rt.create_computed(move || p_cl.get() + 1);
    }

    assert_eq!(prev.get(), 51);

    root.set(10);
    assert_eq!(prev.get(), 60);
}

#[test]
fn test_high_volume_signal_batching_stress() {
    let rt = Runtime::new();
    let sig = rt.signal(0);
    let run_count = Rc::new(RefCell::new(0));

    let s_cl = sig.clone();
    let rc_cl = run_count.clone();
    rt.create_effect(move || {
        let _ = s_cl.get();
        *rc_cl.borrow_mut() += 1;
    });

    assert_eq!(*run_count.borrow(), 1);

    rt.batch(|| {
        for i in 1..=5000 {
            sig.set(i);
        }
    });

    assert_eq!(sig.get(), 5000);
    assert_eq!(*run_count.borrow(), 2);
}

#[test]
fn graph_ids_count_up_from_one() {
    let mut ids = IdAllocator::new();
    assert_eq!(NodeId::next(&mut ids), NodeId(1));
    assert_eq!(NodeId::next(&mut ids), NodeId(2));
    let rt = Runtime::new();
    let s = rt.signal(0u8);
    assert_eq!(s.id(), NodeId(1));
}

#[test]
fn graph_write_outside_batch_runs_each_subscriber_once() {
    let mut g = ReactiveGraph::new();
    let mut ids = IdAllocator::new();
    let sig = NodeId::next(&mut ids);
    let eff = NodeId::next(&mut ids);
    g.register_effect(eff);
    g.swap_observer(Some(eff));
    g.track(sig);
    g.track(sig);
    g.swap_observer(None);
    assert_eq!(g.notify(sig), vec![eff]);
    assert_eq!(g.notify(NodeId(99)), Vec::<NodeId>::new());
}

#[test]
fn graph_read_without_observer_subscribes_nothing() {
    let mut g = ReactiveGraph::new();
    let mut ids = IdAllocator::new();
    let sig = NodeId::next(&mut ids);
    let eff = NodeId::next(&mut ids);
    g.register_effect(eff);
    g.track(sig);
    assert_eq!(g.notify(sig), Vec::<NodeId>::new());
}

#[test]
fn graph_batch_defers_until_outermost_end() {
    let mut g = ReactiveGraph::new();
    let mut ids = IdAllocator::new();
    let a = NodeId::next(&mut ids);
    let b = NodeId::next(&mut ids);
    let eff = NodeId::next(&mut ids);
    g.register_effect(eff);
    g.swap_observer(Some(eff));
    g.track(a);
    g.track(b);
    g.swap_observer(None);
    g.begin_batch();
    g.begin_batch();
    assert_eq!(g.batch_depth(), 2);
    assert!(g.notify(a).is_empty());
    assert!(g.notify(b).is_empty());
    assert!(g.end_batch().is_empty());
    assert_eq!(g.end_batch(), vec![eff]);
    assert_eq!(g.batch_depth(), 0);
    assert!(g.end_batch().is_empty());
}

#[test]
fn graph_disposed_effect_is_forgotten() {
    let mut g = ReactiveGraph::new();
    let mut ids = IdAllocator::new();
    let sig = NodeId::next(&mut ids);
    let eff = NodeId::next(&mut ids);
    g.register_effect(eff);
    g.swap_observer(Some(eff));
    g.track(sig);
    g.swap_observer(None);
    g.begin_batch();
    g.notify(sig);
    g.dispose_effect(eff);
    assert!(!g.is_active(eff));
    assert!(g.end_batch().is_empty());
    assert!(g.notify(sig).is_empty());
}

#[test]
fn graph_dispose_twice_is_dispose_once() {
    let mut g = ReactiveGraph::new();
    let mut ids = IdAllocator::new();
    let sig = NodeId::next(&mut ids);
    let eff = NodeId::next(&mut ids);
    let other = NodeId::next(&mut ids);
    g.register_effect(eff);
    g.register_effect(other);
    g.swap_observer(Some(eff));
    g.track(sig);
    g.swap_observer(Some(other));
    g.track(sig);
    g.swap_observer(None);
    g.dispose_effect(eff);
    g.dispose_effect(eff);
    g.dispose_effect(NodeId(77));
    assert!(!g.is_active(eff));
    assert!(g.is_active(other));
    assert_eq!(g.notify(sig), vec![other]);
}

#[test]
fn graph_disposed_effect_stays_silent_after_later_steps() {
    let mut g = ReactiveGraph::new();
    let mut ids = IdAllocator::new();
    let sig = NodeId::next(&mut ids);
    let eff = NodeId::next(&mut ids);
    g.register_effect(eff);
    g.swap_observer(Some(eff));
    g.track(sig);
    g.swap_observer(None);
    g.dispose_effect(eff);
    // the disposed effect reads again while marked as running: still nothing runs it
    g.swap_observer(Some(eff));
    g.track(sig);
    g.swap_observer(None);
    assert!(g.notify(sig).is_empty());
    g.begin_batch();
    g.notify(sig);
    assert!(g.end_batch().is_empty());
    assert!(g.notify(sig).is_empty());
}

#[test]
fn one_allocator_serves_every_graph() {
    let mut ids = IdAllocator::new();
    let mut first = ReactiveGraph::new();
    let mut second = ReactiveGraph::new();
    let a = NodeId::next(&mut ids);
    let b = NodeId::next(&mut ids);
    first.register_effect(a);
    second.register_effect(b);
    assert_ne!(a, b);
    assert!(first.is_active(a) && !first.is_active(b));
    assert!(second.is_active(b) && !second.is_active(a));
    let later: Vec<NodeId> = (0..100).map(|_| NodeId::next(&mut ids)).collect();
    assert!(later.windows(2).all(|w| w[0].0 < w[1].0));
    assert!(later[0].0 > b.0);
}
