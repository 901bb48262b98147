use robowar::component_system::{ComponentSystem, Id};
use robowar::ecs::{ComponentVec, ComponentVecIter, Index};
use robowar::user_data_map::UserDataMap;

#[test]
fn component_vec_push_get_kill() {
    let mut v: ComponentVec<&str> = ComponentVec::new();
    assert_eq!(v.get(Index(0)), None);
    v.push("a");
    v.push("b");
    v.push("c");
    assert_eq!(v.get(Index(0)), Some(&"a"));
    assert_eq!(v.get(Index(2)), Some(&"c"));
    assert_eq!(v.get(Index(3)), None);
    v.kill(Index(1));
    assert_eq!(v.get(Index(1)), None);
    assert_eq!(v.get(Index(0)), Some(&"a"));
    assert_eq!(v.get(Index(2)), Some(&"c"));
    // Killing past the end changes nothing.
    v.kill(Index(10));
    assert_eq!(v.get(Index(2)), Some(&"c"));
    // A new component goes after the killed one.
    v.push("d");
    assert_eq!(v.get(Index(3)), Some(&"d"));
}

#[test]
fn component_vec_get_mut() {
    let mut v: ComponentVec<u32> = ComponentVec::new();
    v.push(1);
    v.push(2);
    if let Some(x) = v.get_mut(Index(1)) {
        *x += 40;
    }
    assert_eq!(v.get(Index(1)), Some(&42));
    v.kill(Index(0));
    assert!(v.get_mut(Index(0)).is_none());
    assert!(v.get_mut(Index(5)).is_none());
}

#[test]
fn component_vec_iter_stops_at_killed() {
    let mut v: ComponentVec<u32> = ComponentVec::new();
    v.push(10);
    v.push(20);
    v.push(30);
    v.kill(Index(1));
    let mut it = ComponentVecIter { components: &v, next_index: Index(0) };
    assert_eq!(it.next(), Some(&10));
    assert_eq!(it.next(), None);
    assert_eq!(it.next(), Some(&30));
    assert_eq!(it.next(), None);
    assert_eq!(it.next_index, Index(4));
}

#[test]
fn index_add_assign() {
    let mut i = Index(3);
    i.add_assign(4);
    assert_eq!(i, Index(7));
}

#[test]
fn component_system_insert_get_remove() {
    let mut s: ComponentSystem<String> = ComponentSystem::new();
    let a = s.insert("a".to_string());
    let b = s.insert("b".to_string());
    assert_eq!(a, Id(0));
    assert_eq!(b, Id(1));
    assert_eq!(s.get(a).map(|x| x.as_str()), Some("a"));
    assert_eq!(s.get(b).map(|x| x.as_str()), Some("b"));
    assert_eq!(s.get(Id(2)), None);
    s.remove(a);
    assert_eq!(s.get(a), None);
    assert_eq!(s.get(b).map(|x| x.as_str()), Some("b"));
    // Identifiers are never reused, even after a removal or a clear.
    let c = s.insert("c".to_string());
    assert_eq!(c, Id(2));
    s.clear();
    assert_eq!(s.get(b), None);
    assert_eq!(s.insert("d".to_string()), Id(3));
}

#[test]
fn component_system_get_mut() {
    let mut s: ComponentSystem<u64> = ComponentSystem::new();
    let a = s.insert(5);
    if let Some(x) = s.get_mut(a) {
        *x *= 3;
    }
    assert_eq!(s.get(a), Some(&15));
    assert!(s.get_mut(Id(9)).is_none());
}

#[test]
fn component_system_insert_factory() {
    let mut s: ComponentSystem<usize> = ComponentSystem::new();
    let a = s.insert_factory(|id: Id| -> Result<usize, String> { Ok(id.0 * 10 + 1) });
    assert_eq!(a, Ok(Id(0)));
    assert_eq!(s.get(Id(0)), Some(&1));
    let b = s.insert_factory(|_id: Id| -> Result<usize, String> { Err("no".to_string()) });
    assert_eq!(b, Err("no".to_string()));
    assert_eq!(s.get(Id(1)), None);
    // The failed insertion used up its identifier.
    assert_eq!(s.insert(7), Id(2));
}

#[test]
fn component_system_iter_lists_everything_once() {
    let mut s: ComponentSystem<u32> = ComponentSystem::new();
    for v in [10, 20, 30, 40] {
        s.insert(v);
    }
    s.remove(Id(2));
    let mut listed: Vec<(usize, u32)> = s.iter().into_iter().map(|(id, v)| (id.0, *v)).collect();
    listed.sort();
    assert_eq!(listed, vec![(0, 10), (1, 20), (3, 40)]);
}

#[test]
fn user_data_map_starts_at_one() {
    let mut m: UserDataMap<&str> = UserDataMap::new();
    assert_eq!(m.insert("x"), 1);
    assert_eq!(m.insert("y"), 2);
    assert_eq!(m.get(0), None);
    assert_eq!(m.get(1), Some(&"x"));
    assert_eq!(m.remove(1), Some("x"));
    assert_eq!(m.remove(1), None);
    assert_eq!(m.get(2), Some(&"y"));
    m.clear();
    assert_eq!(m.get(2), None);
    assert_eq!(m.insert("z"), 3);
}

#[test]
fn user_data_map_get_mut_and_factory() {
    let mut m: UserDataMap<u128> = UserDataMap::new();
    let a = m.insert_factory(|id: u128| -> Result<u128, ()> { Ok(id + 100) }).unwrap();
    assert_eq!(a, 1);
    assert_eq!(m.get(1), Some(&101));
    if let Some(v) = m.get_mut(1) {
        *v = 7;
    }
    assert_eq!(m.get(1), Some(&7));
    assert!(m.get_mut(2).is_none());
    assert_eq!(m.insert_factory(|_id: u128| -> Result<u128, ()> { Err(()) }), Err(()));
    assert_eq!(m.insert(0), 3);
}

#[test]
fn user_data_map_iter_lists_everything_once() {
    let mut m: UserDataMap<char> = UserDataMap::new();
    m.insert('a');
    m.insert('b');
    m.insert('c');
    m.remove(2);
    let mut listed: Vec<(u128, char)> = m.iter().into_iter().map(|(k, v)| (*k, *v)).collect();
    listed.sort();
    assert_eq!(listed, vec![(1, 'a'), (3, 'c')]);
}

#[test]
fn component_system_iter_mut_changes_values() {
    let mut s: ComponentSystem<u32> = ComponentSystem::new();
    for v in [1, 2, 3] {
        s.insert(v);
    }
    s.remove(Id(0));
    let mut seen: Vec<usize> = Vec::new();
    for (id, v) in s.iter_mut() {
        *v *= 10;
        seen.push(id.0);
    }
    seen.sort();
    assert_eq!(seen, vec![1, 2]);
    assert_eq!(s.get(Id(1)), Some(&20));
    assert_eq!(s.get(Id(2)), Some(&30));
    assert_eq!(s.get(Id(0)), None);
}

#[test]
fn user_data_map_iter_mut_changes_values() {
    let mut m: UserDataMap<String> = UserDataMap::new();
    m.insert("a".to_string());
    m.insert("b".to_string());
    for (id, v) in m.iter_mut() {
        v.push_str(&id.to_string());
    }
    assert_eq!(m.get(1).map(|s| s.as_str()), Some("a1"));
    assert_eq!(m.get(2).map(|s| s.as_str()), Some("b2"));
}

#[test]
fn user_data_map_remove_undoes_insert() {
    let mut m: UserDataMap<u32> = UserDataMap::new();
    m.insert(10);
    m.insert(20);
    let id = m.insert(30);
    assert_eq!(id, 3);
    assert_eq!(m.remove(id), Some(30));
    assert_eq!(m.get(id), None);
    assert_eq!(m.get(1), Some(&10));
    assert_eq!(m.get(2), Some(&20));
    assert_eq!(m.remove(id), None);
    assert_eq!(m.get(1), Some(&10));
    assert_eq!(m.get(2), Some(&20));
}

#[test]
fn component_system_clear_keeps_the_counter() {
    let mut s: ComponentSystem<u8> = ComponentSystem::new();
    s.insert(1);
    let _ = s.insert_factory(|_id: Id| -> Result<u8, ()> { Err(()) });
    s.insert(3);
    s.clear();
    assert_eq!(s.get(Id(0)), None);
    assert_eq!(s.get(Id(2)), None);
    assert_eq!(s.iter().len(), 0);
    assert_eq!(s.insert(4), Id(3));
    assert_eq!(s.get(Id(3)), Some(&4));
}
