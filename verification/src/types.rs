//! Shape descriptors of values, operator kinds and lowering rules.

use vstd::prelude::*;

verus! {

/// Coarse shape class of a value.
#[derive(Clone, Copy, Debug, PartialEq, Eq, Structural)]
pub enum Category {
    Scalar,
    Vector,
    Matrix,
}

/// Leaf type of every component of a value.
#[derive(Clone, Copy, Debug, PartialEq, Eq, Structural)]
pub enum ElementType {
    Bool,
    Int,
    UInt,
    Float,
    Double,
}

/// Arithmetic operator kinds that the dispatch engine resolves.
#[derive(Clone, Copy, Debug, PartialEq, Eq, Structural)]
pub enum Operator {
    Add,
    Subtract,
    Multiply,
    Divide,
}

/// The algorithm selected for one resolved operator application.
#[derive(Clone, Copy, Debug, PartialEq, Eq, Structural)]
pub enum LoweringRule {
    /// A single scalar operation.
    Direct,
    /// Component `i` of the result combines component `i` of both operands.
    Elementwise,
    /// Every component of the vector operand is combined with the scalar.
    Broadcast,
    /// Row by column summation over two square matrices.
    MatrixProduct,
    /// Row vector times square matrix.
    VectorMatrixProduct,
}

/// Shape of a value: category, element type and, unless scalar, a size.
#[derive(Clone, Copy, Debug, PartialEq, Eq)]
pub struct TypeDescriptor {
    pub category: Category,
    pub element: ElementType,
    pub size: Option<u32>,
}

/// Outcome of resolving an operator on two operand shapes.
#[derive(Clone, Copy, Debug, PartialEq, Eq)]
pub struct Resolution {
    pub result: TypeDescriptor,
    pub lowering: LoweringRule,
}

/// One operand as the dispatch engine sees it: its shape, and whether it
/// is recorded in a graph rather than held as a literal.
#[derive(Clone, Copy, Debug, PartialEq, Eq)]
pub struct Operand {
    pub ty: TypeDescriptor,
    pub recorded: bool,
}

/// Smallest size a vector or a matrix may have.
pub const MIN_SIZE: u32 = 2;

/// Whether `size` is a legal size for `category`: absent on a scalar,
/// present and at least `MIN_SIZE` otherwise.
pub open spec fn size_fits(category: Category, size: Option<u32>) -> bool {
    match category {
        Category::Scalar => size is None,
        _ => size is Some && size->0 >= MIN_SIZE,
    }
}

impl TypeDescriptor {
    /// The size invariant of a descriptor.
    pub open spec fn well_formed(self) -> bool {
        size_fits(self.category, self.size)
    }

    /// Number of components of a value of this shape.
    pub open spec fn component_count(self) -> int {
        match self.category {
            Category::Scalar => 1,
            Category::Vector => self.size->0 as int,
            Category::Matrix => (self.size->0 as int) * (self.size->0 as int),
        }
    }

    /// Builds a descriptor, refusing a size that does not fit the category.
    pub fn new(category: Category, element: ElementType, size: Option<u32>) -> (r: Option<
        TypeDescriptor,
    >)
        ensures
            r is Some <==> size_fits(category, size),
            r is Some ==> r->0 == (TypeDescriptor { category, element, size }),
    {
        let candidate = TypeDescriptor { category, element, size };
        if candidate.is_well_formed() {
            Some(candidate)
        } else {
            None
        }
    }

    /// The descriptor of a scalar of the given element type.
    pub fn scalar(element: ElementType) -> (r: TypeDescriptor)
        ensures
            r == (TypeDescriptor { category: Category::Scalar, element, size: None }),
            r.well_formed(),
    {
        TypeDescriptor { category: Category::Scalar, element, size: None }
    }

    /// The descriptor of a vector of `size` components, if `size` is legal.
    pub fn vector(element: ElementType, size: u32) -> (r: Option<TypeDescriptor>)
        ensures
            r is Some <==> size >= MIN_SIZE,
            r is Some ==> r->0 == (TypeDescriptor {
                category: Category::Vector,
                element,
                size: Some(size),
            }),
    {
        TypeDescriptor::new(Category::Vector, element, Some(size))
    }

    /// The descriptor of a square matrix of dimension `size`, if `size` is legal.
    pub fn matrix(element: ElementType, size: u32) -> (r: Option<TypeDescriptor>)
        ensures
            r is Some <==> size >= MIN_SIZE,
            r is Some ==> r->0 == (TypeDescriptor {
                category: Category::Matrix,
                element,
                size: Some(size),
            }),
    {
        TypeDescriptor::new(Category::Matrix, element, Some(size))
    }

    /// Checks the size invariant.
    pub fn is_well_formed(&self) -> (r: bool)
        ensures
            r == self.well_formed(),
    {
        match self.category {
            Category::Scalar => self.size.is_none(),
            _ => match self.size {
                Some(n) => n >= MIN_SIZE,
                None => false,
            },
        }
    }

    /// Whether two descriptors carry the same size.
    pub fn same_size(&self, other: &TypeDescriptor) -> (r: bool)
        ensures
            r == (self.size == other.size),
    {
        match (self.size, other.size) {
            (Some(a), Some(b)) => a == b,
            (None, None) => true,
            _ => false,
        }
    }

    /// Whether two descriptors describe the same shape.
    pub fn same_shape(&self, other: &TypeDescriptor) -> (r: bool)
        ensures
            r == (*self == *other),
    {
        self.category == other.category && self.element == other.element && self.same_size(other)
    }
}

} // verus!
