//! The state that gated linear attention carries from token to token.
use vstd::prelude::*;
use crate::tensor::{cube_fits, matrix_fits, zero_planes, zero_rows, Cube, Matrix};

verus! {

/// One layer's state: the last inputs of the convolution, and a square matrix
/// for every value head.
pub struct DeltaNetLayerState {
    pub conv_state: Matrix,
    pub recurrent_state: Cube,
}

/// The shape of a layer's state.
#[derive(Clone, Copy, Debug, PartialEq, Eq, Structural)]
pub struct StateShape {
    pub d_conv: usize,
    pub conv_dim: usize,
    pub head_v_dim: usize,
    pub n_v_heads: usize,
}

impl StateShape {
    /// A state of this shape can be had.
    pub open spec fn allowed(self) -> bool {
        &&& self.d_conv >= 1
        &&& matrix_fits((self.d_conv - 1) as nat, self.conv_dim as nat)
        &&& cube_fits(self.n_v_heads as nat, self.head_v_dim as nat, self.head_v_dim as nat)
    }
}

impl DeltaNetLayerState {
    /// The state has this shape.
    pub open spec fn has_shape(&self, s: StateShape) -> bool {
        &&& self.conv_state.wf()
        &&& self.conv_state@.len() == s.d_conv - 1
        &&& self.conv_state.width() == s.conv_dim
        &&& self.recurrent_state.wf()
        &&& self.recurrent_state@.len() == s.n_v_heads
        &&& self.recurrent_state.height() == s.head_v_dim
        &&& self.recurrent_state.width() == s.head_v_dim
    }

    /// Every word of the state is zero.
    pub open spec fn is_zero(&self, s: StateShape) -> bool {
        &&& self.has_shape(s)
        &&& self.conv_state@ == zero_rows((s.d_conv - 1) as nat, s.conv_dim as nat)
        &&& self.recurrent_state@ == zero_planes(
            s.n_v_heads as nat,
            s.head_v_dim as nat,
            s.head_v_dim as nat,
        )
    }

    /// A state of zeros. The convolution looks back over one input less than its
    /// window.
    pub fn allocate(d_conv: usize, conv_dim: usize, head_v_dim: usize, n_v_heads: usize) -> (s: Self)
        requires
            (StateShape { d_conv, conv_dim, head_v_dim, n_v_heads }).allowed(),
        ensures
            s.is_zero((StateShape { d_conv, conv_dim, head_v_dim, n_v_heads })),
    {
        DeltaNetLayerState {
            conv_state: Matrix::zeros(d_conv - 1, conv_dim),
            recurrent_state: Cube::zeros(n_v_heads, head_v_dim, head_v_dim),
        }
    }
}

/// The states of a model's layers; a layer of another kind has none.
pub struct DeltaNetStateCache {
    pub layers: Vec<Option<DeltaNetLayerState>>,
    pub shape: StateShape,
}

impl DeltaNetStateCache {
    /// The layers named linear have a state of the shape, the others none.
    pub open spec fn matches_kinds(&self, layer_kinds: Seq<bool>) -> bool {
        &&& self.layers@.len() == layer_kinds.len()
        &&& forall|l: int|
            0 <= l < layer_kinds.len() ==> match #[trigger] self.layers@[l] {
                Some(s) => layer_kinds[l] && s.has_shape(self.shape),
                None => !layer_kinds[l],
            }
    }

    /// Every state is zero.
    pub open spec fn all_zero(&self) -> bool {
        forall|l: int|
            0 <= l < self.layers@.len() ==> (#[trigger] self.layers@[l] matches Some(s)
                ==> s.is_zero(self.shape))
    }

    /// Zero states for the layers named linear.
    pub fn allocate(layer_kinds: &[bool], shape: StateShape) -> (c: Self)
        requires
            shape.allowed(),
        ensures
            c.shape == shape,
            c.matches_kinds(layer_kinds@),
            c.all_zero(),
    {
        let mut layers: Vec<Option<DeltaNetLayerState>> = Vec::new();
        let mut l: usize = 0;
        while l < layer_kinds.len()
            invariant
                l <= layer_kinds@.len(),
                layers@.len() == l,
                shape.allowed(),
                forall|i: int|
                    0 <= i < l ==> match #[trigger] layers@[i] {
                        Some(s) => layer_kinds@[i] && s.is_zero(shape),
                        None => !layer_kinds@[i],
                    },
            decreases layer_kinds@.len() - l,
        {
            if layer_kinds[l] {
                layers.push(
                    Some(
                        DeltaNetLayerState::allocate(
                            shape.d_conv,
                            shape.conv_dim,
                            shape.head_v_dim,
                            shape.n_v_heads,
                        ),
                    ),
                );
            } else {
                layers.push(None);
            }
            l += 1;
        }
        DeltaNetStateCache { layers, shape }
    }

    /// Sets every state to zero.
    pub fn reset(&mut self, layer_kinds: &[bool])
        requires
            old(self).shape.allowed(),
        ensures
            final(self).shape == old(self).shape,
            final(self).matches_kinds(layer_kinds@),
            final(self).all_zero(),
    {
        let fresh: DeltaNetStateCache = DeltaNetStateCache::allocate(layer_kinds, self.shape);
        *self = fresh;
    }
}

/// A fresh state: one row less than the window of the convolution, a square matrix
/// for every value head, and zero everywhere.
pub proof fn law_fresh_state_is_zero(state: DeltaNetLayerState, s: StateShape)
    requires
        s.d_conv >= 1,
        state.is_zero(s),
    ensures
        state.conv_state@.len() == s.d_conv - 1,
        state.conv_state.width() == s.conv_dim,
        forall|r: int, c: int|
            0 <= r < s.d_conv - 1 && 0 <= c < s.conv_dim ==> (#[trigger] state.conv_state@[r][c])
                == 0,
        state.recurrent_state@.len() == s.n_v_heads,
        state.recurrent_state.height() == s.head_v_dim,
        state.recurrent_state.width() == s.head_v_dim,
        forall|h: int, r: int, c: int|
            0 <= h < s.n_v_heads && 0 <= r < s.head_v_dim && 0 <= c < s.head_v_dim ==> (
            #[trigger] state.recurrent_state@[h][r][c]) == 0,
{
}

/// Which layers have a state: the linear ones, one of the cache's shape, and no other.
pub proof fn law_linear_layers_have_states(c: DeltaNetStateCache, layer_kinds: Seq<bool>, l: int)
    requires
        c.matches_kinds(layer_kinds),
        0 <= l < layer_kinds.len(),
    ensures
        c.layers@.len() == layer_kinds.len(),
        c.layers@[l] is Some <==> layer_kinds[l],
        c.layers@[l] matches Some(s) ==> s.conv_state@.len() == c.shape.d_conv - 1
            && s.conv_state.width() == c.shape.conv_dim && s.recurrent_state@.len()
            == c.shape.n_v_heads && s.recurrent_state.height() == c.shape.head_v_dim
            && s.recurrent_state.width() == c.shape.head_v_dim,
        c.all_zero() ==> (c.layers@[l] matches Some(s) ==> s.is_zero(c.shape)),
{
    let s = c.layers@[l];
}

} // verus!
