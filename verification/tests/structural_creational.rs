use design_patterns::abstract_method::{
    Chair, ModernFurnitureFactory, Sofa, VictorianFurnitureFactory,
};
use design_patterns::adapter::{Adaptee, Adapter, Target};
use design_patterns::builder::HouseBuilder;
use design_patterns::composite::{Component, Composite, Leaf};
use design_patterns::facade::Facade;
use design_patterns::factory::{CircleFactory, Shape, ShapeFactory, SquareFactory};
use design_patterns::flyweight::FlyweightFactory;
use design_patterns::prototype::Prototype;
use design_patterns::proxy::{Proxy, RealSubject, Subject};
use design_patterns::raii::DatabaseConnection;
use design_patterns::singleton::{AppConfig, Singleton};

#[test]
fn builder_assembles_exactly_what_was_asked() {
    let house = HouseBuilder::new()
        .walls(4)
        .doors(2)
        .windows(6)
        .garage(true)
        .swimming_pool(false)
        .build();
    assert_eq!(house.walls, 4);
    assert_eq!(house.doors, 2);
    assert_eq!(house.windows, 6);
    assert!(house.has_garage);
    assert!(!house.has_swimming_pool);
}

#[test]
fn singleton_counters_increment() {
    let mut s = Singleton::new();
    assert_eq!(s.get_data(), 0);
    s.increment();
    s.increment();
    assert_eq!(s.get_data(), 2);
    let mut c = AppConfig::new();
    c.increment();
    assert_eq!(c.get_data(), 1);
}

#[test]
fn prototype_clones_exactly() {
    let original = Prototype::new(String::from("Prototype"), 42);
    let cloned = original.clone_prototype();
    assert_eq!(cloned.field1().as_str(), "Prototype");
    assert_eq!(cloned.field2(), 42);
    assert_eq!(original.field1().as_str(), "Prototype");
}

#[test]
fn adapter_translates_the_interface() {
    let adapter = Adapter::new(Adaptee {});
    assert_eq!(adapter.request().as_str(), "specific request");
    assert_eq!(Adaptee {}.specific_request().as_str(), "specific request");
}

#[test]
fn proxy_answers_like_the_real_subject() {
    let proxy = Proxy::new();
    assert_eq!(proxy.request().as_str(), "RealSubject: Handling request.");
    assert_eq!(RealSubject {}.request().as_str(), "RealSubject: Handling request.");
}

#[test]
fn facade_runs_all_subsystems_in_order() {
    let facade = Facade::new();
    assert_eq!(
        facade.operation().as_str(),
        "Subsystem A, Operation A1\nSubsystem A, Operation A2\nSubsystem B, Operation B1\nSubsystem B, Operation B2",
    );
}

#[test]
fn flyweights_are_shared_per_state() {
    let mut factory = FlyweightFactory::new();
    let f1 = factory.get_flyweight("shared1");
    assert_eq!(
        f1.operation("unique1").as_str(),
        "Flyweight: Displaying shared (shared1) and unique (unique1) state.",
    );
    let _f2 = factory.get_flyweight("shared2");
    assert_eq!(factory.count(), 2);
    let f3 = factory.get_flyweight("shared1");
    assert_eq!(factory.count(), 2, "an existing state mints no new flyweight");
    assert_eq!(
        f3.operation("unique3").as_str(),
        "Flyweight: Displaying shared (shared1) and unique (unique3) state.",
    );
}

#[test]
fn factories_mint_their_shape() {
    let circle = CircleFactory {}.create_shape();
    assert!(matches!(circle, Shape::Circle));
    assert_eq!(circle.draw().as_str(), "Drawing a Circle");
    let square = SquareFactory {}.create_shape();
    assert_eq!(square.draw().as_str(), "Drawing a Square");
}

#[test]
fn furniture_families_match_their_style() {
    let modern = ModernFurnitureFactory {};
    let chair = modern.create_chair();
    assert!(chair.has_legs());
    assert_eq!(chair.sit_on().as_str(), "Sitting on a modern chair.");
    assert_eq!(modern.create_sofa().lie_on().as_str(), "Lying on a modern sofa.");
    let victorian = VictorianFurnitureFactory {};
    assert_eq!(victorian.create_chair().sit_on().as_str(), "Sitting on a Victorian chair.");
    assert_eq!(victorian.create_sofa().lie_on().as_str(), "Lying on a Victorian sofa.");
}

#[test]
fn connection_answers_by_liveness() {
    let mut conn = DatabaseConnection::new(1);
    assert!(conn.is_connected());
    assert_eq!(
        conn.query("SELECT * FROM users").as_str(),
        "Result from connection 1: executed 'SELECT * FROM users'",
    );
    conn.disconnect();
    assert!(!conn.is_connected());
    assert_eq!(conn.query("SELECT 1").as_str(), "Not connected");
}

#[test]
fn composite_renders_recursively() {
    let mut root = Composite::new("root");
    let mut sub_tree = Composite::new("sub-tree");
    sub_tree.add(Component::Leaf(Leaf::new("Leaf 3")));
    root.add(Component::Leaf(Leaf::new("Leaf 1")));
    root.add(Component::Leaf(Leaf::new("Leaf 2")));
    root.add(Component::Composite(sub_tree));
    assert_eq!(root.child_count(), 3);
    assert_eq!(
        root.operation().as_str(),
        "Composite root contains:\n  Leaf Leaf 1\n  Leaf Leaf 2\n  Composite sub-tree contains:\n  Leaf Leaf 3\n\n",
    );
    assert_eq!(Leaf::new("alone").operation().as_str(), "Leaf alone");
}
