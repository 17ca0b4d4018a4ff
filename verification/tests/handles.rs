use std::collections::hash_map::DefaultHasher;
use std::hash::{Hash, Hasher};
use space_engine::asset_holder::AssetHolder;
use space_engine::handle::{AssetServerGlobal, HandleUntyped, SpaceHandle};

struct Texture;

#[test]
fn strong_handles_announce_and_release() {
    let mut server = AssetServerGlobal::new();
    let h = SpaceHandle::<Texture>::new(3, &mut server, true);
    assert_eq!(server.create_queue, vec![3]);
    let c = h.clone_handle(&mut server);
    assert_eq!(server.create_queue, vec![3, 3]);
    let u = h.get_untyped(&mut server);
    assert_eq!(server.create_queue, vec![3, 3, 3]);
    assert_eq!(u.get_idx(), 3);
    c.release(&mut server);
    u.release(&mut server);
    h.release(&mut server);
    assert_eq!(server.destroy_queue, vec![3, 3, 3]);
    assert!(server.mark_to_update.is_empty());
}

#[test]
fn weak_handles_stay_silent() {
    let mut server = AssetServerGlobal::new();
    let h = SpaceHandle::<Texture>::new(5, &mut server, false);
    let w = h.get_weak();
    let u = w.get_untyped(&mut server);
    let t: SpaceHandle<Texture> = u.get_typed(&mut server);
    assert!(server.create_queue.is_empty());
    assert_eq!(t.get_idx(), 5);
    t.release(&mut server);
    w.release(&mut server);
    h.release(&mut server);
    assert!(server.destroy_queue.is_empty());
}

#[test]
fn weak_of_strong_and_strong_of_weak() {
    let mut server = AssetServerGlobal::new();
    let h = SpaceHandle::<Texture>::new(1, &mut server, true);
    let w = h.get_weak();
    assert!(h != w);
    assert!(w == w.get_weak());
    let u = h.get_untyped(&mut server);
    let weak_u = w.get_untyped(&mut server);
    let strong_u = weak_u.get_strong(&mut server);
    assert_eq!(server.create_queue, vec![1, 1, 1]);
    let strong_u2 = HandleUntyped::new(1, std::any::TypeId::of::<Texture>(), &mut server, true);
    assert_eq!(server.create_queue, vec![1, 1, 1, 1]);
    strong_u2.release(&mut server);
    strong_u.release(&mut server);
    u.release(&mut server);
    h.release(&mut server);
    weak_u.release(&mut server);
    assert_eq!(server.destroy_queue, vec![1, 1, 1, 1]);
}

#[test]
fn holder_counts_and_versions() {
    let mut server = AssetServerGlobal::new();
    let mut holder = AssetHolder::new(String::from("a"));
    assert_eq!(holder.get_version(), 0);
    holder.inc_counter();
    holder.inc_counter();
    assert!(!holder.dec_counter());
    assert!(holder.dec_counter());
    assert!(holder.dec_counter());
    holder.update_data(String::from("b"), &mut server);
    assert_eq!(holder.get(), "b");
    assert_eq!(holder.get_version(), 1);
    assert!(server.mark_to_update.is_empty());
    holder.get_mut().push('c');
    assert_eq!(holder.get(), "bc");
    assert!(!holder.get_rebuild());
    holder.set_rebuild(true);
    assert!(holder.get_rebuild());
}

#[test]
fn version_counts_updates_among_other_calls() {
    let mut server = AssetServerGlobal::new();
    let mut holder = AssetHolder::new(1u32);
    holder.inc_counter();
    holder.update_data(2, &mut server);
    holder.set_rebuild(true);
    *holder.get_mut() += 5;
    holder.update_data(3, &mut server);
    assert!(holder.dec_counter());
    holder.get_rebuild();
    holder.update_data(4, &mut server);
    assert_eq!(holder.get_version(), 3);
    assert_eq!(*holder.get(), 4);
}

#[test]
fn balance_follows_strong_creations_and_drops() {
    let mut server = AssetServerGlobal::new();
    let a = SpaceHandle::<Texture>::new(7, &mut server, true);
    let b = a.clone_handle(&mut server);
    let w = a.get_weak();
    let other = SpaceHandle::<Texture>::new(8, &mut server, true);
    b.release(&mut server);
    w.release(&mut server);
    let count = |q: &Vec<usize>, idx: usize| q.iter().filter(|&&i| i == idx).count() as i64;
    assert_eq!(count(&server.create_queue, 7) - count(&server.destroy_queue, 7), 1);
    assert_eq!(count(&server.create_queue, 8) - count(&server.destroy_queue, 8), 1);
    a.release(&mut server);
    other.release(&mut server);
    assert_eq!(count(&server.create_queue, 7) - count(&server.destroy_queue, 7), 0);
    assert_eq!(count(&server.create_queue, 8) - count(&server.destroy_queue, 8), 0);
}

#[test]
fn handles_hash_by_slot() {
    let digest = |h: &SpaceHandle<Texture>| {
        let mut s = DefaultHasher::new();
        h.hash(&mut s);
        s.finish()
    };
    let mut server = AssetServerGlobal::new();
    let strong = SpaceHandle::<Texture>::new(9, &mut server, true);
    let weak = strong.get_weak();
    let other = SpaceHandle::<Texture>::new(10, &mut server, false);
    let mut plain = DefaultHasher::new();
    9usize.hash(&mut plain);
    assert_eq!(digest(&strong), plain.finish());
    assert_eq!(digest(&strong), digest(&weak));
    assert_ne!(digest(&strong), digest(&other));
    strong.release(&mut server);
}
