pub mod particle;
pub mod pso_swarm;
